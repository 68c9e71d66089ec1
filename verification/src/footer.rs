//! The fixed-size footer and its validation.
//!
//! The footer is the single source of truth for how to interpret the rest
//! of a file.  It is always located by a fixed-size read from the end of
//! the file, so opening a file never scans from the start.

use crate::error::TieredStorageError;
use crate::format::{
    AccountBlockFormat, AccountMetaFormat, IndexBlockFormat, OwnersBlockFormat, ADDRESS_SIZE,
    FOOTER_MAGIC, INDEX_ENTRY_SIZE, META_ENTRY_SIZE, TRAILER_SIZE,
};
use crate::layout::{
    le16, le64, spec_block_format_code_of, spec_header_wf, spec_index_format_code_of,
    spec_index_length_of, spec_index_offset_of, spec_magic_of, spec_meta_entry_size_of,
    spec_meta_format_code_of, spec_owners_format_code_of, spec_owners_length_of,
    spec_owners_offset_of, spec_record_count_of,
};
use vstd::bytes::{u16_from_le_bytes, u64_from_le_bytes};
use vstd::prelude::*;
use vstd::slice::slice_subrange;

verus! {

/// Reads the u64 stored little-endian at byte offset `off`.
pub fn read_u64_at(bytes: &Vec<u8>, off: usize) -> (r: u64)
    requires
        off + 8 <= bytes@.len(),
    ensures
        r == le64(bytes@, off as int),
{
    let n = bytes.len();
    assert(off + 8 <= n);
    let s = slice_subrange(bytes.as_slice(), off, off + 8);
    u64_from_le_bytes(s)
}

/// Reads the u16 stored little-endian at byte offset `off`.
pub fn read_u16_at(bytes: &Vec<u8>, off: usize) -> (r: u16)
    requires
        off + 2 <= bytes@.len(),
    ensures
        r == le16(bytes@, off as int),
{
    let n = bytes.len();
    assert(off + 2 <= n);
    let s = slice_subrange(bytes.as_slice(), off, off + 2);
    u16_from_le_bytes(s)
}

/// The decoded footer of a storage file: format identifiers, block
/// offsets and lengths, and the record count.
#[derive(Clone, Copy, Debug, PartialEq, Eq, Structural)]
pub struct TieredStorageFooter {
    pub account_meta_format: AccountMetaFormat,
    pub owners_block_format: OwnersBlockFormat,
    pub index_block_format: IndexBlockFormat,
    pub account_block_format: AccountBlockFormat,
    pub meta_entry_size: u64,
    pub owners_block_offset: u64,
    pub owners_block_length: u64,
    pub index_block_offset: u64,
    pub index_block_length: u64,
    pub record_count: u64,
}

/// The footer value holds exactly what the trailer of `b` stores.
pub open spec fn spec_footer_matches(f: TieredStorageFooter, b: Seq<u8>) -> bool {
    &&& f.meta_entry_size == spec_meta_entry_size_of(b)
    &&& f.owners_block_offset == spec_owners_offset_of(b)
    &&& f.owners_block_length == spec_owners_length_of(b)
    &&& f.index_block_offset == spec_index_offset_of(b)
    &&& f.index_block_length == spec_index_length_of(b)
    &&& f.record_count == spec_record_count_of(b)
    &&& Some(f.account_meta_format) == AccountMetaFormat::spec_from_code(
        spec_meta_format_code_of(b),
    )
    &&& Some(f.owners_block_format) == OwnersBlockFormat::spec_from_code(
        spec_owners_format_code_of(b),
    )
    &&& Some(f.index_block_format) == IndexBlockFormat::spec_from_code(
        spec_index_format_code_of(b),
    )
    &&& Some(f.account_block_format) == AccountBlockFormat::spec_from_code(
        spec_block_format_code_of(b),
    )
}

impl TieredStorageFooter {
    /// Reads the trailer of `bytes` and validates it: the magic number
    /// must match exactly, the format identifiers must be known, and the
    /// recorded block offsets and lengths must tile the region before the
    /// trailer exactly.  Succeeds if and only if the trailer is
    /// consistent; a magic-number mismatch is reported as such.
    pub fn parse(bytes: &Vec<u8>) -> (r: Result<TieredStorageFooter, TieredStorageError>)
        ensures
            r is Ok <==> spec_header_wf(bytes@),
            r matches Ok(f) ==> spec_footer_matches(f, bytes@),
            bytes@.len() >= TRAILER_SIZE && spec_magic_of(bytes@) != FOOTER_MAGIC ==> (r matches Err(
                e,
            ) && e matches TieredStorageError::MagicNumberMismatch(x, y) && x == FOOTER_MAGIC && y
                == spec_magic_of(bytes@)),
    {
        let l = bytes.len();
        if l < TRAILER_SIZE {
            return Err(TieredStorageError::InvalidFooter(("file shorter than trailer").to_owned()));
        }
        let magic = read_u64_at(bytes, l - 8);
        if magic != FOOTER_MAGIC {
            return Err(TieredStorageError::MagicNumberMismatch(FOOTER_MAGIC, magic));
        }
        let meta_entry_size = read_u64_at(bytes, l - 64);
        if meta_entry_size != META_ENTRY_SIZE as u64 {
            return Err(TieredStorageError::InvalidFooter(("unexpected meta entry size").to_owned()));
        }
        let account_meta_format = match AccountMetaFormat::from_code(read_u16_at(bytes, l - 56)) {
            Some(f) => f,
            None => {
                return Err(
                    TieredStorageError::InvalidFooter(("unknown metadata encoding").to_owned()),
                );
            },
        };
        let owners_block_format = match OwnersBlockFormat::from_code(read_u16_at(bytes, l - 54)) {
            Some(f) => f,
            None => {
                return Err(
                    TieredStorageError::InvalidFooter(("unknown owners encoding").to_owned()),
                );
            },
        };
        let index_block_format = match IndexBlockFormat::from_code(read_u16_at(bytes, l - 52)) {
            Some(f) => f,
            None => {
                return Err(TieredStorageError::InvalidFooter(("unknown index encoding").to_owned()));
            },
        };
        let account_block_format = match AccountBlockFormat::from_code(read_u16_at(bytes, l - 50)) {
            Some(f) => f,
            None => {
                return Err(
                    TieredStorageError::InvalidFooter(("unknown data block encoding").to_owned()),
                );
            },
        };
        let owners_block_offset = read_u64_at(bytes, l - 48);
        let owners_block_length = read_u64_at(bytes, l - 40);
        let index_block_offset = read_u64_at(bytes, l - 32);
        let index_block_length = read_u64_at(bytes, l - 24);
        let record_count = read_u64_at(bytes, l - 16);
        let before_trailer = (l - TRAILER_SIZE) as u64;
        if index_block_offset > before_trailer || before_trailer - index_block_offset
            != index_block_length {
            return Err(
                TieredStorageError::InvalidFooter(("index block does not end at footer").to_owned()),
            );
        }
        if owners_block_offset > index_block_offset || index_block_offset - owners_block_offset
            != owners_block_length {
            return Err(
                TieredStorageError::InvalidFooter(
                    ("owners block does not end at index block").to_owned(),
                ),
            );
        }
        if owners_block_length % (ADDRESS_SIZE as u64) != 0 {
            return Err(
                TieredStorageError::InvalidFooter(("ragged owners block length").to_owned()),
            );
        }
        if index_block_length % (INDEX_ENTRY_SIZE as u64) != 0 || index_block_length
            / (INDEX_ENTRY_SIZE as u64) != record_count {
            return Err(
                TieredStorageError::InvalidFooter(
                    ("index block length does not match record count").to_owned(),
                ),
            );
        }
        if record_count == 0 && owners_block_offset != 0 {
            return Err(
                TieredStorageError::InvalidFooter(("data before owners block is empty").to_owned()),
            );
        }
        Ok(
            TieredStorageFooter {
                account_meta_format,
                owners_block_format,
                index_block_format,
                account_block_format,
                meta_entry_size,
                owners_block_offset,
                owners_block_length,
                index_block_offset,
                index_block_length,
                record_count,
            },
        )
    }
}

} // verus!
