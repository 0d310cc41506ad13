//! What holds of every document that decodes: how many call-offs it has and
//! in which order they stand.

use vstd::prelude::*;
use crate::cursor::{
    lemma_record_read, line_at, line_len, spec_parse_511, spec_parse_512, spec_parse_513,
    spec_parse_514, spec_parse_plain, spec_peek, Options,
};
use crate::error::DecodeError;
use crate::grammar::{
    block_513, block_514, block_size, count_blocks, spec_abruf_chain, spec_optional, spec_parse,
    spec_parse_abrufe, spec_satz513_repeat, spec_trailer, well_formed, BlockModel,
};
use crate::record::{lemma_fixed_count, lemma_satz511_layout, lemma_satz512_layout, Abruf};
use crate::satz::Satz;
use crate::vda::{flatten, spec_decode};

verus! {

/// Whether every block is of type `satz`.
pub open spec fn all_of(blocks: Seq<BlockModel>, satz: Satz) -> bool {
    forall|i: int| 0 <= i < blocks.len() ==> (#[trigger] blocks[i]).satz == satz
}

/// The call-offs of blocks put one behind the other are the call-offs of
/// the first blocks with those of the later blocks behind them.
pub proof fn lemma_flatten_concat(a: Seq<BlockModel>, b: Seq<BlockModel>)
    ensures
        flatten(a + b) == flatten(a) + flatten(b),
    decreases b.len(),
{
    if b.len() == 0 {
        assert(a + b =~= a);
        assert(flatten(a) + flatten(b) =~= flatten(a));
    } else {
        lemma_flatten_concat(a, b.drop_last());
        assert((a + b).drop_last() =~= a + b.drop_last());
        assert((a + b).last() == b.last());
        assert(flatten(a) + (flatten(b.drop_last()) + b.last().abrufe) =~= (flatten(a) + flatten(
            b.drop_last(),
        )) + b.last().abrufe);
    }
}

/// Document order: the call-offs of block `i` stand in the flattened
/// sequence as they stand in the block, behind the call-offs of all the
/// blocks before it and in front of those of all the blocks behind it.
pub proof fn lemma_flatten_keeps_order(blocks: Seq<BlockModel>, i: int)
    requires
        0 <= i < blocks.len(),
    ensures
        flatten(blocks) == flatten(blocks.subrange(0, i)) + blocks[i].abrufe + flatten(
            blocks.subrange(i + 1, blocks.len() as int),
        ),
{
    let before = blocks.subrange(0, i);
    let one = seq![blocks[i]];
    let behind = blocks.subrange(i + 1, blocks.len() as int);
    assert(blocks =~= before + one + behind);
    lemma_flatten_concat(before + one, behind);
    lemma_flatten_concat(before, one);
    assert(one.drop_last() =~= Seq::<BlockModel>::empty());
    assert(flatten(one.drop_last()) =~= Seq::<Abruf>::empty());
    assert(one.last() == blocks[i]);
    assert(flatten(one) =~= blocks[i].abrufe);
}

/// Blocks put one behind the other count as the sum of their counts.
pub proof fn lemma_count_concat(a: Seq<BlockModel>, b: Seq<BlockModel>, satz: Satz)
    ensures
        count_blocks(a + b, satz) == count_blocks(a, satz) + count_blocks(b, satz),
    decreases b.len(),
{
    if b.len() == 0 {
        assert(a + b =~= a);
    } else {
        lemma_count_concat(a, b.drop_last(), satz);
        assert((a + b).drop_last() =~= a + b.drop_last());
        assert((a + b).last() == b.last());
    }
}

/// Blocks of one type count as their number for that type and as none for
/// any other.
pub proof fn lemma_count_all_of(blocks: Seq<BlockModel>, satz: Satz, other: Satz)
    requires
        all_of(blocks, satz),
        other != satz,
    ensures
        count_blocks(blocks, satz) == blocks.len(),
        count_blocks(blocks, other) == 0,
    decreases blocks.len(),
{
    if blocks.len() > 0 {
        assert(blocks.last() == blocks[blocks.len() - 1]);
        assert forall|i: int| 0 <= i < blocks.drop_last().len() implies (#[trigger] blocks.drop_last()[i]).satz
            == satz by {
            assert(blocks.drop_last()[i] == blocks[i]);
        }
        lemma_count_all_of(blocks.drop_last(), satz, other);
    }
}

/// Well-formed blocks hold five call-offs for each block of type 513 and
/// eight for each block of type 514.
pub proof fn lemma_flatten_len(blocks: Seq<BlockModel>)
    requires
        well_formed(blocks),
    ensures
        flatten(blocks).len() == 5 * count_blocks(blocks, Satz::S513) + 8 * count_blocks(
            blocks,
            Satz::S514,
        ),
    decreases blocks.len(),
{
    if blocks.len() > 0 {
        assert(blocks.last() == blocks[blocks.len() - 1]);
        assert forall|i: int| 0 <= i < blocks.drop_last().len() implies ((#[trigger] blocks.drop_last()[i]).satz
            == Satz::S513 || blocks.drop_last()[i].satz == Satz::S514) && blocks.drop_last()[i].abrufe.len()
            == block_size(blocks.drop_last()[i].satz) by {
            assert(blocks.drop_last()[i] == blocks[i]);
        }
        lemma_flatten_len(blocks.drop_last());
    }
}

/// The blocks of `(Satz512 Satz513)*` are blocks of type 513 of five
/// call-offs each.
pub proof fn lemma_satz513_repeat_blocks(text: Seq<u8>, pos: int, options: Options)
    ensures
        spec_satz513_repeat(text, pos, options) matches Ok((blocks, _)) ==> well_formed(blocks)
            && all_of(blocks, Satz::S513),
    decreases text.len() - pos,
{
    if let Ok((blocks, _)) = spec_satz513_repeat(text, pos, options) {
        if let Ok((_, items_at)) = spec_parse_512(text, pos, options.satz512) {
            if let Ok((items, next)) = spec_parse_513(text, items_at, options.satz513) {
                lemma_fixed_count(line_at(text, items_at), options.satz513);
                lemma_satz513_repeat_blocks(text, next, options);
                let rest = spec_satz513_repeat(text, next, options)->Ok_0.0;
                assert(blocks =~= seq![block_513(items)] + rest);
            }
        }
    }
}

/// The blocks of `(Satz514 Satz515?)*` are blocks of type 514 of eight
/// call-offs each.
pub proof fn lemma_abruf_chain_blocks(text: Seq<u8>, pos: int, options: Options)
    ensures
        spec_abruf_chain(text, pos, options) matches Ok((blocks, _)) ==> well_formed(blocks) && all_of(
            blocks,
            Satz::S514,
        ),
    decreases text.len() - pos,
{
    if let Ok((blocks, _)) = spec_abruf_chain(text, pos, options) {
        if let Ok((items, text_at)) = spec_parse_514(text, pos, options.satz514) {
            if let Ok((_, next)) = spec_optional(
                text,
                text_at,
                Satz::S515,
                options.satz515,
            ) {
                lemma_fixed_count(line_at(text, pos), options.satz514);
                lemma_abruf_chain_blocks(text, next, options);
                let rest = spec_abruf_chain(text, next, options)->Ok_0.0;
                assert(blocks =~= seq![block_514(items)] + rest);
            }
        }
    }
}

/// The blocks of `Satz513 (Satz512 Satz513)* AbrufChain` are well formed;
/// one more of them is of type 513 than records of type 512 stood between
/// them.
pub proof fn lemma_parse_abrufe_blocks(text: Seq<u8>, pos: int, options: Options)
    ensures
        spec_parse_abrufe(text, pos, options) matches Ok((blocks, later_satz512, _)) ==> {
            &&& well_formed(blocks)
            &&& blocks.len() >= 1
            &&& blocks[0].satz == Satz::S513
            &&& count_blocks(blocks, Satz::S513) == 1 + later_satz512
            &&& count_blocks(blocks, Satz::S513) + count_blocks(blocks, Satz::S514) == blocks.len()
        },
{
    if let Ok((blocks, later_satz512, _)) = spec_parse_abrufe(text, pos, options) {
        let (items, repeat_at) = spec_parse_513(text, pos, options.satz513)->Ok_0;
        let (repeats, chain_at) = spec_satz513_repeat(text, repeat_at, options)->Ok_0;
        let (chain, _) = spec_abruf_chain(text, chain_at, options)->Ok_0;
        let first = seq![block_513(items)];
        lemma_fixed_count(line_at(text, pos), options.satz513);
        lemma_satz513_repeat_blocks(text, repeat_at, options);
        lemma_abruf_chain_blocks(text, chain_at, options);
        assert(blocks == first + repeats + chain);
        assert(all_of(first, Satz::S513));
        lemma_count_all_of(first, Satz::S513, Satz::S514);
        lemma_count_all_of(repeats, Satz::S513, Satz::S514);
        lemma_count_all_of(chain, Satz::S514, Satz::S513);
        lemma_count_concat(first, repeats, Satz::S513);
        lemma_count_concat(first, repeats, Satz::S514);
        lemma_count_concat(first + repeats, chain, Satz::S513);
        lemma_count_concat(first + repeats, chain, Satz::S514);
    }
}

/// A document that a text writes is well formed.
pub proof fn lemma_document_well_formed(text: Seq<u8>, options: Options)
    requires
        spec_parse(text, options) is Ok,
    ensures
        spec_parse(text, options)->Ok_0.well_formed(),
{
    let (_, p1) = spec_parse_511(text, 0, options.satz511)->Ok_0;
    let (_, p2) = spec_parse_512(text, p1, options.satz512)->Ok_0;
    lemma_satz511_layout(line_at(text, 0), options.satz511);
    lemma_satz512_layout(line_at(text, p1), options.satz512);
    lemma_parse_abrufe_blocks(text, p2, options);
}

/// The call-offs of a decoded document: five for each record of type 513
/// and eight for each record of type 514, with one record of type 513 more
/// than records of type 512 behind the first; and the aggregate holds them
/// in the order of the blocks.
pub proof fn lemma_document_call_offs(text: Seq<u8>, options: Options)
    requires
        spec_parse(text, options) is Ok,
    ensures
        ({
            let document = spec_parse(text, options)->Ok_0;
            let vda = spec_decode(text, options)->Ok_0;
            &&& spec_decode(text, options) is Ok
            &&& well_formed(document.blocks)
            &&& count_blocks(document.blocks, Satz::S513) == 1 + document.later_satz512
            &&& vda.abrufe == flatten(document.blocks)
            &&& vda.abrufe.len() == 5 * count_blocks(document.blocks, Satz::S513) + 8 * count_blocks(
                document.blocks,
                Satz::S514,
            )
            &&& count_blocks(document.blocks, Satz::S514) == 0 ==> vda.abrufe.len() == 5 * (1
                + document.later_satz512)
        }),
{
    let (_, p1) = spec_parse_511(text, 0, options.satz511)->Ok_0;
    let (_, p2) = spec_parse_512(text, p1, options.satz512)->Ok_0;
    lemma_parse_abrufe_blocks(text, p2, options);
    lemma_flatten_len(spec_parse(text, options)->Ok_0.blocks);
}

/// The opening of a decoded document: its first three lines are records of
/// type 511, 512 and 513, in this order and 128 columns wide each. Whatever
/// else the document holds stands behind them.
pub proof fn lemma_document_opening(text: Seq<u8>, options: Options)
    requires
        spec_parse(text, options) is Ok,
    ensures
        spec_peek(text, 0) == Some(Satz::S511),
        spec_peek(text, 129) == Some(Satz::S512),
        spec_peek(text, 258) == Some(Satz::S513),
        line_len(text, 0) == 128 && line_len(text, 129) == 128 && line_len(text, 258) == 128,
{
    let (_, p1) = spec_parse_511(text, 0, options.satz511)->Ok_0;
    let (_, p2) = spec_parse_512(text, p1, options.satz512)->Ok_0;
    assert(spec_parse_abrufe(text, p2, options) is Ok);
    assert(spec_parse_513(text, p2, options.satz513) is Ok);
    lemma_record_read(text, 0, Satz::S511, options.satz511);
    lemma_record_read(text, p1, Satz::S512, options.satz512);
    lemma_record_read(text, p2, Satz::S513, options.satz513);
}

/// The end of a decoded document: its last line is a record of type 519,
/// and the text ends behind it.
pub proof fn lemma_document_end(text: Seq<u8>, options: Options)
    requires
        spec_parse(text, options) is Ok,
    ensures
        exists|end_at: int|
            0 <= end_at && spec_peek(text, end_at) == Some(Satz::S519) && #[trigger] spec_parse_plain(
                text,
                end_at,
                Satz::S519,
                options.satz519,
            ) == Ok::<int, DecodeError>(text.len() as int),
{
    let (_, p1) = spec_parse_511(text, 0, options.satz511)->Ok_0;
    let (_, p2) = spec_parse_512(text, p1, options.satz512)->Ok_0;
    let (_, _, p3) = spec_parse_abrufe(text, p2, options)->Ok_0;
    let (_, p4) = spec_trailer(text, p3, options)->Ok_0;
    assert(spec_parse_plain(text, p4, Satz::S519, options.satz519) == Ok::<int, DecodeError>(
        text.len() as int,
    ));
    lemma_record_read(text, p4, Satz::S519, options.satz519);
}

} // verus!
