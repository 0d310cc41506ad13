//! Decoder for fixed-width delivery call-off documents.
//!
//! A document is a text of lines, each 128 columns wide and tagged by a
//! three-digit header code. The modules go from the leaves up:
//!
//! - `satz` names the record types and looks a header code up;
//! - `error` is what a failed decode reports;
//! - `field` reads fixed-width spans of one line;
//! - `number` turns a padded span of digits into an integer;
//! - `record` decodes one line of each record type;
//! - `cursor` reads records at an offset of the text;
//! - `grammar` composes the records into a document;
//! - `vda` folds a document into the aggregate that callers consume;
//! - `laws` proves what holds of every document that decodes.
//!
//! Every function is a pure function of its arguments: a decode reads the
//! text it is given and nothing else, and gives back a value or a failure.

pub mod satz;
pub mod error;
pub mod field;
pub mod number;
pub mod record;
pub mod cursor;
pub mod grammar;
pub mod vda;
pub mod laws;
