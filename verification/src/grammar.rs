//! The segment grammar: how the records of a document follow one another.
//!
//! ```text
//! Document      := Satz511 Satz512 Block513Chain Trailer Satz519
//! Block513Chain := Satz513 (Satz512 Satz513)* AbrufChain
//! AbrufChain    := (Satz514 Satz515?)*
//! Trailer       := Satz515? Satz517Chain? Satz518?
//! Satz517Chain  := Satz517 (Satz517Chain | Satz518)
//! ```
//!
//! At every choice the header code of the line at the cursor decides: a
//! production that may be absent is taken when the line opens with its code
//! and is absent otherwise. Once a production is taken, any failure within
//! it ends the decode. Repetition is a loop, so that a chain of any depth
//! costs no stack.

use vstd::prelude::*;
use crate::cursor::{
    parse_511, parse_512, parse_513, parse_514, parse_519, parse_plain, peek, spec_parse_511,
    spec_parse_512, spec_parse_513, spec_parse_514, spec_parse_plain, spec_peek, Options,
};
use crate::error::{DecodeError, ErrorKind};
use crate::field::Class;
use crate::laws::lemma_document_well_formed;
use crate::record::{Abruf, Satz511, Satz511Model, Satz512, Satz512Model};
use crate::satz::Satz;

verus! {

/// The call-offs of one record of type 513 or 514.
#[derive(Clone, Debug, PartialEq, Eq)]
pub struct Block {
    pub satz: Satz,
    pub abrufe: Vec<Abruf>,
}

/// What a `Block` holds, as a sequence.
pub struct BlockModel {
    pub satz: Satz,
    pub abrufe: Seq<Abruf>,
}

impl View for Block {
    type V = BlockModel;

    open spec fn view(&self) -> BlockModel {
        BlockModel { satz: self.satz, abrufe: self.abrufe@ }
    }
}

/// The models of a sequence of blocks, in the same order.
pub open spec fn block_models(blocks: Seq<Block>) -> Seq<BlockModel> {
    Seq::new(blocks.len(), |i: int| blocks[i]@)
}

/// What the records between the call-offs and the end record held.
#[derive(Clone, Copy, Debug, PartialEq, Eq)]
pub struct Trailer {
    /// Whether a record of type 515 opened the trailer.
    pub satz515: bool,
    /// The number of records of type 517 in the chain; zero without a chain.
    pub satz517_depth: usize,
    /// Whether a record of type 518 stood behind the chain.
    pub satz518: bool,
}

/// What a `Trailer` holds, with the depth as a natural number.
pub struct TrailerModel {
    pub satz515: bool,
    pub satz517_depth: nat,
    pub satz518: bool,
}

impl View for Trailer {
    type V = TrailerModel;

    open spec fn view(&self) -> TrailerModel {
        TrailerModel {
            satz515: self.satz515,
            satz517_depth: self.satz517_depth as nat,
            satz518: self.satz518,
        }
    }
}

/// A decoded document, segment by segment, before it is folded.
#[derive(Clone, Debug, PartialEq, Eq)]
pub struct Document {
    pub satz511: Satz511,
    /// The first record of type 512, the only one whose fields are kept.
    pub satz512: Satz512,
    /// The blocks of call-offs, in the order of the text.
    pub blocks: Vec<Block>,
    /// The number of records of type 512 behind the first. Their fields are
    /// dropped; a document with any is known by this count.
    pub later_satz512: usize,
    pub trailer: Trailer,
}

/// What a `Document` holds, as sequences and natural numbers.
pub struct DocumentModel {
    pub satz511: Satz511Model,
    pub satz512: Satz512Model,
    pub blocks: Seq<BlockModel>,
    pub later_satz512: nat,
    pub trailer: TrailerModel,
}

/// The number of call-offs in a block of a record of type `satz`.
pub open spec fn block_size(satz: Satz) -> nat {
    match satz {
        Satz::S513 => 5,
        Satz::S514 => 8,
        _ => 0,
    }
}

/// Whether every block is of type 513 or 514 and holds as many call-offs as
/// its type has.
pub open spec fn well_formed(blocks: Seq<BlockModel>) -> bool {
    forall|i: int|
        0 <= i < blocks.len() ==> ((#[trigger] blocks[i]).satz == Satz::S513 || blocks[i].satz
            == Satz::S514) && blocks[i].abrufe.len() == block_size(blocks[i].satz)
}

/// The number of blocks of type `satz`.
pub open spec fn count_blocks(blocks: Seq<BlockModel>, satz: Satz) -> nat
    decreases blocks.len(),
{
    if blocks.len() == 0 {
        0
    } else {
        count_blocks(blocks.drop_last(), satz) + if blocks.last().satz == satz {
            1nat
        } else {
            0nat
        }
    }
}

impl DocumentModel {
    /// Whether the document is one that a text can write: records with
    /// fields of the right widths, blocks of five and of eight call-offs
    /// with a block of five in front, and one block of five more than
    /// records of type 512 behind the first.
    pub open spec fn well_formed(self) -> bool {
        &&& self.satz511.well_formed()
        &&& self.satz512.well_formed()
        &&& well_formed(self.blocks)
        &&& self.blocks.len() >= 1
        &&& self.blocks[0].satz == Satz::S513
        &&& count_blocks(self.blocks, Satz::S513) == 1 + self.later_satz512
        &&& count_blocks(self.blocks, Satz::S513) + count_blocks(self.blocks, Satz::S514)
            == self.blocks.len()
    }
}

impl View for Document {
    type V = DocumentModel;

    open spec fn view(&self) -> DocumentModel {
        DocumentModel {
            satz511: self.satz511@,
            satz512: self.satz512@,
            blocks: block_models(self.blocks@),
            later_satz512: self.later_satz512 as nat,
            trailer: self.trailer@,
        }
    }
}

/// The block of a record of type 513.
pub open spec fn block_513(abrufe: Seq<Abruf>) -> BlockModel {
    BlockModel { satz: Satz::S513, abrufe }
}

/// The block of a record of type 514.
pub open spec fn block_514(abrufe: Seq<Abruf>) -> BlockModel {
    BlockModel { satz: Satz::S514, abrufe }
}

/// The result `r` of the rest of a repetition, with the blocks read before
/// it put in front.
pub open spec fn with_blocks(prefix: Seq<BlockModel>, r: Result<(Seq<BlockModel>, int), DecodeError>) -> Result<
    (Seq<BlockModel>, int),
    DecodeError,
> {
    match r {
        Ok((rest, next)) => Ok((prefix + rest, next)),
        Err(e) => Err(e),
    }
}

/// The result `r` of the rest of a chain, made deeper by the records read
/// before it.
pub open spec fn deeper(depth: nat, r: Result<(nat, int), DecodeError>) -> Result<(nat, int), DecodeError> {
    match r {
        Ok((rest, next)) => Ok((depth + rest, next)),
        Err(e) => Err(e),
    }
}

/// What a production of one record that may be absent gives: whether it was
/// there, and the cursor behind it.
pub open spec fn spec_optional(text: Seq<u8>, pos: int, satz: Satz, filler: Class) -> Result<
    (bool, int),
    DecodeError,
> {
    if spec_peek(text, pos) == Some(satz) {
        match spec_parse_plain(text, pos, satz, filler) {
            Ok(next) => Ok((true, next)),
            Err(e) => Err(e),
        }
    } else {
        Ok((false, pos))
    }
}

/// What `(Satz512 Satz513)*` gives: one block for each round, and the
/// cursor at the first line that does not open with 512.
pub open spec fn spec_satz513_repeat(text: Seq<u8>, pos: int, options: Options) -> Result<
    (Seq<BlockModel>, int),
    DecodeError,
>
    decreases text.len() - pos,
{
    if spec_peek(text, pos) == Some(Satz::S512) {
        match spec_parse_512(text, pos, options.satz512) {
            Err(e) => Err(e),
            Ok((_, items_at)) => match spec_parse_513(text, items_at, options.satz513) {
                Err(e) => Err(e),
                Ok((items, next)) => with_blocks(
                    seq![block_513(items)],
                    spec_satz513_repeat(text, next, options),
                ),
            },
        }
    } else {
        Ok((Seq::empty(), pos))
    }
}

/// What `(Satz514 Satz515?)*` gives: one block for each record of type 514,
/// and the cursor at the first line that does not open with 514.
pub open spec fn spec_abruf_chain(text: Seq<u8>, pos: int, options: Options) -> Result<
    (Seq<BlockModel>, int),
    DecodeError,
>
    decreases text.len() - pos,
{
    if spec_peek(text, pos) == Some(Satz::S514) {
        match spec_parse_514(text, pos, options.satz514) {
            Err(e) => Err(e),
            Ok((items, text_at)) => match spec_optional(text, text_at, Satz::S515, options.satz515) {
                Err(e) => Err(e),
                Ok((_, next)) => with_blocks(seq![block_514(items)], spec_abruf_chain(text, next, options)),
            },
        }
    } else {
        Ok((Seq::empty(), pos))
    }
}

/// What `Satz517 (Satz517Chain | Satz518)` gives: the number of records of
/// type 517 before the record of type 518 that ends the chain, and the
/// cursor behind that record.
pub open spec fn spec_satz517_chain(text: Seq<u8>, pos: int, options: Options) -> Result<
    (nat, int),
    DecodeError,
>
    decreases text.len() - pos,
{
    match spec_parse_plain(text, pos, Satz::S517, options.satz517) {
        Err(e) => Err(e),
        Ok(inner) => if spec_peek(text, inner) == Some(Satz::S517) {
            deeper(1, spec_satz517_chain(text, inner, options))
        } else {
            match spec_parse_plain(text, inner, Satz::S518, options.satz518) {
                Err(e) => Err(e),
                Ok(next) => Ok((1, next)),
            }
        },
    }
}

/// What `Satz515? Satz517Chain? Satz518?` gives.
pub open spec fn spec_trailer(text: Seq<u8>, pos: int, options: Options) -> Result<
    (TrailerModel, int),
    DecodeError,
> {
    match spec_optional(text, pos, Satz::S515, options.satz515) {
        Err(e) => Err(e),
        Ok((satz515, chain_at)) => match (if spec_peek(text, chain_at) == Some(Satz::S517) {
            spec_satz517_chain(text, chain_at, options)
        } else {
            Ok((0nat, chain_at))
        }) {
            Err(e) => Err(e),
            Ok((satz517_depth, end_at)) => match spec_optional(text, end_at, Satz::S518, options.satz518) {
                Err(e) => Err(e),
                Ok((satz518, next)) => Ok((TrailerModel { satz515, satz517_depth, satz518 }, next)),
            },
        },
    }
}

/// What `Satz513 (Satz512 Satz513)* AbrufChain` gives: the blocks in the
/// order of the text, the number of records of type 512 among them, and the
/// cursor behind the last block.
pub open spec fn spec_parse_abrufe(text: Seq<u8>, pos: int, options: Options) -> Result<
    (Seq<BlockModel>, nat, int),
    DecodeError,
> {
    match spec_parse_513(text, pos, options.satz513) {
        Err(e) => Err(e),
        Ok((items, repeat_at)) => match spec_satz513_repeat(text, repeat_at, options) {
            Err(e) => Err(e),
            Ok((repeats, chain_at)) => match spec_abruf_chain(text, chain_at, options) {
                Err(e) => Err(e),
                Ok((chain, next)) => Ok((seq![block_513(items)] + repeats + chain, repeats.len(), next)),
            },
        },
    }
}

/// The failure of a document that goes on behind its end record.
pub open spec fn trailing_error(text: Seq<u8>, pos: int) -> DecodeError {
    DecodeError { kind: ErrorKind::UnexpectedCharacter { character: text[pos] }, offset: pos as usize }
}

/// What `parse` gives: the document that the text writes, from its first
/// line to the end record, behind which nothing may follow.
pub open spec fn spec_parse(text: Seq<u8>, options: Options) -> Result<DocumentModel, DecodeError> {
    match spec_parse_511(text, 0, options.satz511) {
        Err(e) => Err(e),
        Ok((satz511, p1)) => match spec_parse_512(text, p1, options.satz512) {
            Err(e) => Err(e),
            Ok((satz512, p2)) => match spec_parse_abrufe(text, p2, options) {
                Err(e) => Err(e),
                Ok((blocks, later_satz512, p3)) => match spec_trailer(text, p3, options) {
                    Err(e) => Err(e),
                    Ok((trailer, p4)) => match spec_parse_plain(text, p4, Satz::S519, options.satz519) {
                        Err(e) => Err(e),
                        Ok(end) => if end == text.len() {
                            Ok(DocumentModel { satz511, satz512, blocks, later_satz512, trailer })
                        } else {
                            Err(trailing_error(text, end))
                        },
                    },
                },
            },
        },
    }
}

/// Blocks put in front in two steps are put in front at once.
proof fn lemma_with_blocks(
    a: Seq<BlockModel>,
    b: Seq<BlockModel>,
    r: Result<(Seq<BlockModel>, int), DecodeError>,
)
    ensures
        with_blocks(a, with_blocks(b, r)) == with_blocks(a + b, r),
        with_blocks(Seq::empty(), r) == r,
{
    match r {
        Ok((rest, next)) => {
            assert(a + (b + rest) =~= (a + b) + rest);
            assert(Seq::<BlockModel>::empty() + rest =~= rest);
        },
        Err(_) => {},
    }
}

/// A chain made deeper in two steps is made deeper at once.
proof fn lemma_deeper(a: nat, b: nat, r: Result<(nat, int), DecodeError>)
    ensures
        deeper(a, deeper(b, r)) == deeper(a + b, r),
        deeper(0, r) == r,
{
}

/// Whether the line at `pos` opens with the code of `satz`.
fn at_header(text: &[u8], pos: usize, satz: Satz) -> (b: bool)
    ensures
        b == (spec_peek(text@, pos as int) == Some(satz)),
{
    match peek(text, pos) {
        Some(found) => found == satz,
        None => false,
    }
}

/// Reads a record of type `satz` at `pos` if the line there opens with its
/// code.
fn optional(text: &[u8], pos: usize, satz: Satz, filler: Class) -> (r: Result<(bool, usize), DecodeError>)
    ensures
        spec_optional(text@, pos as int, satz, filler) == match r {
            Ok((present, next)) => Ok::<(bool, int), DecodeError>((present, next as int)),
            Err(e) => Err(e),
        },
        r matches Ok((present, next)) ==> pos <= next && (pos <= text@.len() ==> next <= text@.len()),
{
    if at_header(text, pos, satz) {
        let next = parse_plain(text, pos, satz, filler)?;
        Ok((true, next))
    } else {
        Ok((false, pos))
    }
}

/// Reads `(Satz512 Satz513)*` at `pos`: as many rounds as there are lines
/// that open with 512. The fields of these records of type 512 are
/// dropped.
pub fn satz513_repeat(text: &[u8], pos: usize, options: Options) -> (r: Result<
    (Vec<Block>, usize),
    DecodeError,
>)
    ensures
        spec_satz513_repeat(text@, pos as int, options) == match r {
            Ok((blocks, next)) => Ok::<(Seq<BlockModel>, int), DecodeError>(
                (block_models(blocks@), next as int),
            ),
            Err(e) => Err(e),
        },
        r matches Ok((blocks, next)) ==> pos <= next && (pos <= text@.len() ==> next <= text@.len())
            && blocks@.len() <= next - pos,
{
    let mut blocks: Vec<Block> = Vec::new();
    let mut p: usize = pos;
    proof {
        lemma_with_blocks(Seq::empty(), Seq::empty(), spec_satz513_repeat(text@, pos as int, options));
        assert(block_models(blocks@) =~= Seq::empty());
    }
    loop
        invariant
            pos <= p,
            pos <= text@.len() ==> p <= text@.len(),
            blocks@.len() <= p - pos,
            spec_satz513_repeat(text@, pos as int, options) == with_blocks(
                block_models(blocks@),
                spec_satz513_repeat(text@, p as int, options),
            ),
        decreases text@.len() - p,
    {
        if !at_header(text, p, Satz::S512) {
            proof {
                assert(block_models(blocks@) + Seq::empty() =~= block_models(blocks@));
            }
            return Ok((blocks, p));
        }
        let (_, items_at) = parse_512(text, p, options.satz512)?;
        let (items, next) = parse_513(text, items_at, options.satz513)?;
        proof {
            lemma_with_blocks(
                block_models(blocks@),
                seq![block_513(items@)],
                spec_satz513_repeat(text@, next as int, options),
            );
            assert(block_models(blocks@.push(Block { satz: Satz::S513, abrufe: items }))
                =~= block_models(blocks@) + seq![block_513(items@)]);
        }
        blocks.push(Block { satz: Satz::S513, abrufe: items });
        p = next;
    }
}

/// Reads `(Satz514 Satz515?)*` at `pos`: as many records of type 514 as
/// follow one another, each with the record of type 515 behind it, if there
/// is one.
pub fn abruf_chain(text: &[u8], pos: usize, options: Options) -> (r: Result<
    (Vec<Block>, usize),
    DecodeError,
>)
    ensures
        spec_abruf_chain(text@, pos as int, options) == match r {
            Ok((blocks, next)) => Ok::<(Seq<BlockModel>, int), DecodeError>(
                (block_models(blocks@), next as int),
            ),
            Err(e) => Err(e),
        },
        r matches Ok((blocks, next)) ==> pos <= next && (pos <= text@.len() ==> next <= text@.len()),
{
    let mut blocks: Vec<Block> = Vec::new();
    let mut p: usize = pos;
    proof {
        lemma_with_blocks(Seq::empty(), Seq::empty(), spec_abruf_chain(text@, pos as int, options));
        assert(block_models(blocks@) =~= Seq::empty());
    }
    loop
        invariant
            pos <= p,
            pos <= text@.len() ==> p <= text@.len(),
            spec_abruf_chain(text@, pos as int, options) == with_blocks(
                block_models(blocks@),
                spec_abruf_chain(text@, p as int, options),
            ),
        decreases text@.len() - p,
    {
        if !at_header(text, p, Satz::S514) {
            proof {
                assert(block_models(blocks@) + Seq::empty() =~= block_models(blocks@));
            }
            return Ok((blocks, p));
        }
        let (items, text_at) = parse_514(text, p, options.satz514)?;
        let (_, next) = optional(text, text_at, Satz::S515, options.satz515)?;
        proof {
            lemma_with_blocks(
                block_models(blocks@),
                seq![block_514(items@)],
                spec_abruf_chain(text@, next as int, options),
            );
            assert(block_models(blocks@.push(Block { satz: Satz::S514, abrufe: items }))
                =~= block_models(blocks@) + seq![block_514(items@)]);
        }
        blocks.push(Block { satz: Satz::S514, abrufe: items });
        p = next;
    }
}

/// Reads a chain of records of type 517 at `pos`, down to the record of
/// type 518 that ends it. Gives the number of records of type 517.
pub fn satz517_chain(text: &[u8], pos: usize, options: Options) -> (r: Result<(usize, usize), DecodeError>)
    ensures
        spec_satz517_chain(text@, pos as int, options) == match r {
            Ok((depth, next)) => Ok::<(nat, int), DecodeError>((depth as nat, next as int)),
            Err(e) => Err(e),
        },
        r matches Ok((depth, next)) ==> depth >= 1 && pos < next <= text@.len(),
{
    let mut depth: usize = 0;
    let mut p: usize = pos;
    proof {
        lemma_deeper(0, 0, spec_satz517_chain(text@, pos as int, options));
    }
    loop
        invariant
            pos <= p,
            depth <= p - pos,
            depth > 0 ==> p <= text@.len(),
            spec_satz517_chain(text@, pos as int, options) == deeper(
                depth as nat,
                spec_satz517_chain(text@, p as int, options),
            ),
        decreases text@.len() - p,
    {
        let inner = parse_plain(text, p, Satz::S517, options.satz517)?;
        if at_header(text, inner, Satz::S517) {
            proof {
                lemma_deeper(depth as nat, 1, spec_satz517_chain(text@, inner as int, options));
            }
            depth += 1;
            p = inner;
        } else {
            let next = parse_plain(text, inner, Satz::S518, options.satz518)?;
            return Ok((depth + 1, next));
        }
    }
}

/// Reads `Satz515? Satz517Chain? Satz518?` at `pos`.
pub fn trailer(text: &[u8], pos: usize, options: Options) -> (r: Result<(Trailer, usize), DecodeError>)
    ensures
        spec_trailer(text@, pos as int, options) == match r {
            Ok((found, next)) => Ok::<(TrailerModel, int), DecodeError>((found@, next as int)),
            Err(e) => Err(e),
        },
        r matches Ok((found, next)) ==> pos <= next && (pos <= text@.len() ==> next <= text@.len()),
{
    let (satz515, chain_at) = optional(text, pos, Satz::S515, options.satz515)?;
    let (satz517_depth, end_at) = if at_header(text, chain_at, Satz::S517) {
        satz517_chain(text, chain_at, options)?
    } else {
        (0, chain_at)
    };
    let (satz518, next) = optional(text, end_at, Satz::S518, options.satz518)?;
    Ok((Trailer { satz515, satz517_depth, satz518 }, next))
}

/// Reads `Satz513 (Satz512 Satz513)* AbrufChain` at `pos`: every block of
/// call-offs of the document, in the order of the text, and the number of
/// records of type 512 that stood between them.
pub fn parse_abrufe(text: &[u8], pos: usize, options: Options) -> (r: Result<
    (Vec<Block>, usize, usize),
    DecodeError,
>)
    ensures
        spec_parse_abrufe(text@, pos as int, options) == match r {
            Ok((blocks, later_satz512, next)) => Ok::<(Seq<BlockModel>, nat, int), DecodeError>(
                (block_models(blocks@), later_satz512 as nat, next as int),
            ),
            Err(e) => Err(e),
        },
        r matches Ok((blocks, later_satz512, next)) ==> pos < next <= text@.len(),
{
    let (items, repeat_at) = parse_513(text, pos, options.satz513)?;
    let (mut repeats, chain_at) = satz513_repeat(text, repeat_at, options)?;
    let (mut chain, next) = abruf_chain(text, chain_at, options)?;
    let later_satz512: usize = repeats.len();
    let mut blocks: Vec<Block> = Vec::new();
    let ghost repeats_before = repeats@;
    let ghost chain_before = chain@;
    blocks.push(Block { satz: Satz::S513, abrufe: items });
    blocks.append(&mut repeats);
    blocks.append(&mut chain);
    proof {
        assert(block_models(blocks@) =~= seq![block_513(items@)] + block_models(repeats_before)
            + block_models(chain_before));
    }
    Ok((blocks, later_satz512, next))
}

/// Decodes a whole text into a document, with the filler of each record
/// type held to the class that `options` gives.
pub fn parse(text: &[u8], options: Options) -> (r: Result<Document, DecodeError>)
    ensures
        spec_parse(text@, options) == match r {
            Ok(document) => Ok::<DocumentModel, DecodeError>(document@),
            Err(e) => Err(e),
        },
        r matches Ok(document) ==> document@.well_formed(),
{
    proof {
        if spec_parse(text@, options) is Ok {
            lemma_document_well_formed(text@, options);
        }
    }
    let (satz511, p1) = parse_511(text, 0, options.satz511)?;
    let (satz512, p2) = parse_512(text, p1, options.satz512)?;
    let (blocks, later_satz512, p3) = parse_abrufe(text, p2, options)?;
    let (trailer, p4) = trailer(text, p3, options)?;
    let end = parse_519(text, p4, options.satz519)?;
    if end != text.len() {
        return Err(
            DecodeError { kind: ErrorKind::UnexpectedCharacter { character: text[end] }, offset: end },
        );
    }
    Ok(Document { satz511, satz512, blocks, later_satz512, trailer })
}

} // verus!
