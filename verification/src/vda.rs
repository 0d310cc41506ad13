//! The document assembler: folds a decoded document into the aggregate.

use vstd::prelude::*;
use crate::cursor::Options;
use crate::error::DecodeError;
use crate::field::Class;
use crate::grammar::{block_models, parse, spec_parse, Block, BlockModel, Document, DocumentModel};
use crate::laws::lemma_document_call_offs;
use crate::record::Abruf;

verus! {

/// The aggregate of a delivery call-off: who calls off what from whom, and
/// every call-off of the document in the order of the text.
#[derive(Clone, Debug, PartialEq, Eq)]
pub struct Vda {
    pub kunde: Vec<u8>,
    pub lieferant: Vec<u8>,
    pub werk: Vec<u8>,
    pub abladestelle: Vec<u8>,
    pub lieferabruf_alt: u64,
    pub lieferabruf_neu: u64,
    pub sachnummer: Vec<u8>,
    pub mengeneinheit: Vec<u8>,
    /// No record supplies the backlog; it is always `None`.
    pub rueckstandmenge: Option<u64>,
    /// No record supplies the immediate demand; it is always `None`.
    pub sofortbedarf: Option<u64>,
    pub abrufe: Vec<Abruf>,
}

/// What a `Vda` holds, as sequences.
pub struct VdaModel {
    pub kunde: Seq<u8>,
    pub lieferant: Seq<u8>,
    pub werk: Seq<u8>,
    pub abladestelle: Seq<u8>,
    pub lieferabruf_alt: u64,
    pub lieferabruf_neu: u64,
    pub sachnummer: Seq<u8>,
    pub mengeneinheit: Seq<u8>,
    pub rueckstandmenge: Option<u64>,
    pub sofortbedarf: Option<u64>,
    pub abrufe: Seq<Abruf>,
}

impl VdaModel {
    /// Whether the aggregate is one that a text can write: identifiers of
    /// the widths of their fields, no backlog and no immediate demand, and
    /// at least the five call-offs of the first block.
    pub open spec fn well_formed(self) -> bool {
        &&& self.kunde.len() == 9
        &&& self.lieferant.len() == 9
        &&& self.werk.len() == 3
        &&& self.abladestelle.len() == 5
        &&& self.sachnummer.len() == 22
        &&& self.mengeneinheit.len() == 2
        &&& self.rueckstandmenge is None
        &&& self.sofortbedarf is None
        &&& self.abrufe.len() >= 5
    }
}

impl View for Vda {
    type V = VdaModel;

    open spec fn view(&self) -> VdaModel {
        VdaModel {
            kunde: self.kunde@,
            lieferant: self.lieferant@,
            werk: self.werk@,
            abladestelle: self.abladestelle@,
            lieferabruf_alt: self.lieferabruf_alt,
            lieferabruf_neu: self.lieferabruf_neu,
            sachnummer: self.sachnummer@,
            mengeneinheit: self.mengeneinheit@,
            rueckstandmenge: self.rueckstandmenge,
            sofortbedarf: self.sofortbedarf,
            abrufe: self.abrufe@,
        }
    }
}

/// The call-offs of all the blocks, one block behind the other.
pub open spec fn flatten(blocks: Seq<BlockModel>) -> Seq<Abruf>
    decreases blocks.len(),
{
    if blocks.len() == 0 {
        Seq::empty()
    } else {
        flatten(blocks.drop_last()) + blocks.last().abrufe
    }
}

/// What `assemble` gives: the fields of the root header record and of the
/// first schedule header record, and the call-offs of every block.
pub open spec fn spec_assemble(document: DocumentModel) -> VdaModel {
    VdaModel {
        kunde: document.satz511.kunde,
        lieferant: document.satz511.lieferant,
        werk: document.satz512.werk_kunde,
        abladestelle: document.satz512.abladestelle,
        lieferabruf_alt: document.satz512.lieferabruf_alt,
        lieferabruf_neu: document.satz512.lieferabruf_neu,
        sachnummer: document.satz512.sachnummer_kunde,
        mengeneinheit: document.satz512.mengeneinheit,
        rueckstandmenge: None,
        sofortbedarf: None,
        abrufe: flatten(document.blocks),
    }
}

/// What `decode_with` gives: the aggregate of the document that the text
/// writes, or the failure of the decode.
pub open spec fn spec_decode(text: Seq<u8>, options: Options) -> Result<VdaModel, DecodeError> {
    match spec_parse(text, options) {
        Ok(document) => Ok(spec_assemble(document)),
        Err(e) => Err(e),
    }
}

/// Copies the call-offs of all the blocks into one sequence.
pub fn collect(blocks: &Vec<Block>) -> (abrufe: Vec<Abruf>)
    ensures
        abrufe@ == flatten(block_models(blocks@)),
{
    let mut abrufe: Vec<Abruf> = Vec::new();
    let mut i: usize = 0;
    proof {
        assert(block_models(blocks@).subrange(0, 0) =~= Seq::empty());
    }
    while i < blocks.len()
        invariant
            i <= blocks@.len(),
            abrufe@ == flatten(block_models(blocks@).subrange(0, i as int)),
        decreases blocks@.len() - i,
    {
        let block = &blocks[i];
        let ghost before = abrufe@;
        let mut j: usize = 0;
        while j < block.abrufe.len()
            invariant
                j <= block.abrufe@.len(),
                abrufe@ == before + block.abrufe@.subrange(0, j as int),
            decreases block.abrufe@.len() - j,
        {
            abrufe.push(block.abrufe[j]);
            proof {
                assert(block.abrufe@.subrange(0, j + 1) =~= block.abrufe@.subrange(0, j as int).push(
                    block.abrufe@[j as int],
                ));
            }
            j += 1;
        }
        proof {
            let models = block_models(blocks@);
            assert(block.abrufe@.subrange(0, j as int) =~= block.abrufe@);
            assert(models.subrange(0, i + 1).drop_last() =~= models.subrange(0, i as int));
            assert(models.subrange(0, i + 1).last() == block@);
        }
        i += 1;
    }
    proof {
        assert(block_models(blocks@).subrange(0, i as int) =~= block_models(blocks@));
    }
    abrufe
}

/// Folds a document into the aggregate. Only the first record of type 512
/// supplies fields; the call-offs come from every block.
pub fn assemble(document: Document) -> (vda: Vda)
    ensures
        vda@ == spec_assemble(document@),
{
    let abrufe = collect(&document.blocks);
    let Document { satz511, satz512, .. } = document;
    Vda {
        kunde: satz511.kunde,
        lieferant: satz511.lieferant,
        werk: satz512.werk_kunde,
        abladestelle: satz512.abladestelle,
        lieferabruf_alt: satz512.lieferabruf_alt,
        lieferabruf_neu: satz512.lieferabruf_neu,
        sachnummer: satz512.sachnummer_kunde,
        mengeneinheit: satz512.mengeneinheit,
        rueckstandmenge: None,
        sofortbedarf: None,
        abrufe,
    }
}

/// Decodes a text into the aggregate, with the filler of each record type
/// held to the class that `options` gives. No part of an aggregate comes
/// back from a text that fails.
pub fn decode_with(text: &[u8], options: Options) -> (r: Result<Vda, DecodeError>)
    ensures
        spec_decode(text@, options) == match r {
            Ok(vda) => Ok::<VdaModel, DecodeError>(vda@),
            Err(e) => Err(e),
        },
        r matches Ok(vda) ==> vda@.well_formed(),
{
    match parse(text, options) {
        Ok(document) => {
            proof {
                lemma_document_call_offs(text@, options);
            }
            Ok(assemble(document))
        },
        Err(e) => Err(e),
    }
}

/// Decodes a text into the aggregate, with filler of any content.
pub fn decode(text: &[u8]) -> (r: Result<Vda, DecodeError>)
    ensures
        spec_decode(text@, Options::spec_uniform(Class::Any)) == match r {
            Ok(vda) => Ok::<VdaModel, DecodeError>(vda@),
            Err(e) => Err(e),
        },
        r matches Ok(vda) ==> vda@.well_formed(),
{
    decode_with(text, Options::uniform(Class::Any))
}

} // verus!
