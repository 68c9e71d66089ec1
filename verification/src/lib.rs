//! Append-only tiered storage for account records.
//!
//! A storage file is produced by exactly one write pass and is immutable
//! afterwards.  The byte image of a file is
//! `[data block][owners block][index block][footer][magic number]`:
//! the data block holds each record's fixed-size metadata followed by its
//! payload, the owners block is a deduplicated list of owner addresses, the
//! index block maps each logical position to the byte offset of its record,
//! and the fixed-size footer (closed by a magic number) records where every
//! block lies and how many records the file holds.
//!
//! The modules are layered: [`record`] defines the record types and their
//! mathematical models, [`format`] the on-disk layout constants and format
//! descriptors, [`layout`] the byte-level encoding and parsing as
//! specification functions, [`proofs`] the lemmas that connect the two —
//! above all the round trip —, [`writer`] the verified single-pass
//! encoder, [`footer`] and [`reader`] the verified validator and
//! random-access decoder, [`error`] the typed failures, and [`storage`]
//! the write-once handle that ties them together.

pub mod error;
pub mod footer;
pub mod format;
pub mod layout;
pub mod proofs;
pub mod reader;
pub mod record;
pub mod storage;
pub mod writer;
