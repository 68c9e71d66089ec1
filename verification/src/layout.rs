//! The byte-level layout of a storage file, as specification functions.
//!
//! The encoding side (`spec_file_bytes` and its pieces) says exactly which
//! byte sequence a write pass produces for a batch of record models.  The
//! parsing side (`spec_file_wf`, `spec_record_at` and the field accessors)
//! says what a reader finds at which offset of an arbitrary byte sequence.
//! [`lemma_round_trip`] connects the two: the bytes produced for any batch
//! validate, and decode back to exactly that batch.

use crate::format::{
    AccountBlockFormat, AccountMetaFormat, IndexBlockFormat, OwnersBlockFormat, ADDRESS_SIZE,
    FOOTER_MAGIC, HASH_SIZE, INDEX_ENTRY_SIZE, META_ENTRY_SIZE, TRAILER_SIZE,
};
use crate::record::AccountRecordModel;
use vstd::bytes::*;
use vstd::prelude::*;

verus! {

// ---------------------------------------------------------------------------
// Little-endian readers over a byte sequence
// ---------------------------------------------------------------------------
/// The u64 stored little-endian at byte offset `off`.
pub open spec fn le64(b: Seq<u8>, off: int) -> u64 {
    spec_u64_from_le_bytes(b.subrange(off, off + 8))
}

/// The u16 stored little-endian at byte offset `off`.
pub open spec fn le16(b: Seq<u8>, off: int) -> u16 {
    spec_u16_from_le_bytes(b.subrange(off, off + 2))
}

// ---------------------------------------------------------------------------
// Encoding: what a write pass produces
// ---------------------------------------------------------------------------
/// The hash field bytes written when a record carries no hash.
pub open spec fn spec_zero_hash() -> Seq<u8> {
    Seq::new(HASH_SIZE as nat, |i: int| 0u8)
}

/// The fixed-size metadata portion of one encoded record.
pub open spec fn spec_encode_meta(m: AccountRecordModel, owner_index: u64) -> Seq<u8> {
    m.address + spec_u64_to_le_bytes(m.lamports) + spec_u64_to_le_bytes(owner_index)
        + spec_u64_to_le_bytes(m.data.len() as u64)
        + seq![if m.executable { 1u8 } else { 0u8 }]
        + seq![if m.hash is Some { 1u8 } else { 0u8 }]
        + (match m.hash {
        Some(h) => h,
        None => spec_zero_hash(),
    }) + spec_u64_to_le_bytes(m.write_version)
}

/// One encoded record: fixed-size metadata followed by the payload.
pub open spec fn spec_encode_record(m: AccountRecordModel, owner_index: u64) -> Seq<u8> {
    spec_encode_meta(m, owner_index) + m.data
}

/// The first index at which `o` occurs in `owners`, or `owners.len()` if it
/// does not occur.
pub open spec fn spec_index_in(owners: Seq<Seq<u8>>, o: Seq<u8>) -> int
    decreases owners.len(),
{
    if owners.len() == 0 {
        0
    } else if owners[0] == o {
        0
    } else {
        1 + spec_index_in(owners.drop_first(), o)
    }
}

/// The deduplicated owner addresses of a batch, in first-seen order.
pub open spec fn spec_owners(models: Seq<AccountRecordModel>) -> Seq<Seq<u8>>
    decreases models.len(),
{
    if models.len() == 0 {
        Seq::empty()
    } else {
        let prev = spec_owners(models.drop_last());
        if prev.contains(models.last().owner) {
            prev
        } else {
            prev.push(models.last().owner)
        }
    }
}

/// The owner-table index assigned to record `i` of the batch.
pub open spec fn spec_owner_index(models: Seq<AccountRecordModel>, i: int) -> int {
    spec_index_in(spec_owners(models.take(i + 1)), models[i].owner)
}

/// The data block: every record of the batch encoded back to back.
pub open spec fn spec_data_block(models: Seq<AccountRecordModel>) -> Seq<u8>
    decreases models.len(),
{
    if models.len() == 0 {
        Seq::empty()
    } else {
        spec_data_block(models.drop_last()) + spec_encode_record(
            models.last(),
            spec_owner_index(models, models.len() - 1) as u64,
        )
    }
}

/// The byte offset of record `i` within the data block.
pub open spec fn spec_record_offset(models: Seq<AccountRecordModel>, i: int) -> int {
    spec_data_block(models.take(i)).len() as int
}

/// The index block: one `(slot, offset)` entry per record, in write order.
pub open spec fn spec_index_block(models: Seq<AccountRecordModel>) -> Seq<u8>
    decreases models.len(),
{
    if models.len() == 0 {
        Seq::empty()
    } else {
        spec_index_block(models.drop_last()) + spec_u64_to_le_bytes((models.len() - 1) as u64)
            + spec_u64_to_le_bytes(spec_record_offset(models, models.len() - 1) as u64)
    }
}

/// The owners block: the deduplicated addresses back to back.
pub open spec fn spec_owners_bytes(owners: Seq<Seq<u8>>) -> Seq<u8>
    decreases owners.len(),
{
    if owners.len() == 0 {
        Seq::empty()
    } else {
        spec_owners_bytes(owners.drop_last()) + owners.last()
    }
}

/// The footer written for a batch.
pub open spec fn spec_footer_bytes(models: Seq<AccountRecordModel>) -> Seq<u8> {
    let data_len = spec_data_block(models).len() as int;
    let owners_len = ADDRESS_SIZE * spec_owners(models).len();
    spec_u64_to_le_bytes(META_ENTRY_SIZE as u64)
        + spec_u16_to_le_bytes(AccountMetaFormat::Hot.spec_code())
        + spec_u16_to_le_bytes(OwnersBlockFormat::AddressesOnly.spec_code())
        + spec_u16_to_le_bytes(IndexBlockFormat::AddressesThenOffsets.spec_code())
        + spec_u16_to_le_bytes(AccountBlockFormat::AlignedRaw.spec_code())
        + spec_u64_to_le_bytes(data_len as u64) + spec_u64_to_le_bytes(owners_len as u64)
        + spec_u64_to_le_bytes((data_len + owners_len) as u64)
        + spec_u64_to_le_bytes((INDEX_ENTRY_SIZE * models.len()) as u64)
        + spec_u64_to_le_bytes(models.len() as u64)
}

/// The complete byte image of the sealed file for a batch.
pub open spec fn spec_file_bytes(models: Seq<AccountRecordModel>) -> Seq<u8> {
    spec_data_block(models) + spec_owners_bytes(spec_owners(models)) + spec_index_block(models)
        + spec_footer_bytes(models) + spec_u64_to_le_bytes(FOOTER_MAGIC)
}

// ---------------------------------------------------------------------------
// Parsing: what a reader finds in an arbitrary byte sequence
// ---------------------------------------------------------------------------
/// Footer field: size of one metadata record.
pub open spec fn spec_meta_entry_size_of(b: Seq<u8>) -> u64 {
    le64(b, b.len() - 64)
}

/// Footer field: discriminant of the metadata encoding.
pub open spec fn spec_meta_format_code_of(b: Seq<u8>) -> u16 {
    le16(b, b.len() - 56)
}

/// Footer field: discriminant of the owners-block encoding.
pub open spec fn spec_owners_format_code_of(b: Seq<u8>) -> u16 {
    le16(b, b.len() - 54)
}

/// Footer field: discriminant of the index-block encoding.
pub open spec fn spec_index_format_code_of(b: Seq<u8>) -> u16 {
    le16(b, b.len() - 52)
}

/// Footer field: discriminant of the data-block encoding.
pub open spec fn spec_block_format_code_of(b: Seq<u8>) -> u16 {
    le16(b, b.len() - 50)
}

/// Footer field: byte offset of the owners block.
pub open spec fn spec_owners_offset_of(b: Seq<u8>) -> u64 {
    le64(b, b.len() - 48)
}

/// Footer field: byte length of the owners block.
pub open spec fn spec_owners_length_of(b: Seq<u8>) -> u64 {
    le64(b, b.len() - 40)
}

/// Footer field: byte offset of the index block.
pub open spec fn spec_index_offset_of(b: Seq<u8>) -> u64 {
    le64(b, b.len() - 32)
}

/// Footer field: byte length of the index block.
pub open spec fn spec_index_length_of(b: Seq<u8>) -> u64 {
    le64(b, b.len() - 24)
}

/// Footer field: number of records in the file.
pub open spec fn spec_record_count_of(b: Seq<u8>) -> u64 {
    le64(b, b.len() - 16)
}

/// The trailing magic number.
pub open spec fn spec_magic_of(b: Seq<u8>) -> u64 {
    le64(b, b.len() - 8)
}

/// The slot recorded in index entry `i`.
pub open spec fn spec_slot_of(b: Seq<u8>, i: int) -> u64 {
    le64(b, spec_index_offset_of(b) as int + INDEX_ENTRY_SIZE * i)
}

/// The data-block offset recorded in index entry `i`.
pub open spec fn spec_offset_of(b: Seq<u8>, i: int) -> u64 {
    le64(b, spec_index_offset_of(b) as int + INDEX_ENTRY_SIZE * i + 8)
}

/// The payload length stored in the metadata of record `i`.
pub open spec fn spec_data_len_of(b: Seq<u8>, i: int) -> u64 {
    le64(b, spec_offset_of(b, i) as int + 48)
}

/// The owner-table index stored in the metadata of record `i`.
pub open spec fn spec_owner_index_of(b: Seq<u8>, i: int) -> u64 {
    le64(b, spec_offset_of(b, i) as int + 40)
}

/// The executable-flag byte stored in the metadata of record `i`.
pub open spec fn spec_exec_byte_of(b: Seq<u8>, i: int) -> u8 {
    b[spec_offset_of(b, i) as int + 56]
}

/// The hash-present byte stored in the metadata of record `i`.
pub open spec fn spec_hash_flag_of(b: Seq<u8>, i: int) -> u8 {
    b[spec_offset_of(b, i) as int + 57]
}

/// The owner address stored at position `idx` of the owners block.
pub open spec fn spec_owner_addr_at(b: Seq<u8>, idx: int) -> Seq<u8> {
    let oo = spec_owners_offset_of(b) as int;
    b.subrange(oo + ADDRESS_SIZE * idx, oo + ADDRESS_SIZE * idx + ADDRESS_SIZE)
}

/// Consistency of index entry `i` and the metadata it points at: the slot
/// matches the position, the records are laid out back to back from offset
/// zero and end exactly where the owners block starts, the owner index is in
/// range, and the two flag bytes are boolean.
pub open spec fn spec_entry_wf(b: Seq<u8>, i: int) -> bool {
    let oo = spec_owners_offset_of(b) as int;
    let off = spec_offset_of(b, i) as int;
    let dl = spec_data_len_of(b, i) as int;
    &&& spec_slot_of(b, i) == i as u64
    &&& off == if i == 0 {
        0int
    } else {
        spec_offset_of(b, i - 1) as int + META_ENTRY_SIZE + spec_data_len_of(b, i - 1) as int
    }
    &&& off + META_ENTRY_SIZE + dl <= oo
    &&& (i == spec_record_count_of(b) as int - 1 ==> off + META_ENTRY_SIZE + dl == oo)
    &&& ADDRESS_SIZE * spec_owner_index_of(b, i) as int + ADDRESS_SIZE <= spec_owners_length_of(
        b,
    ) as int
    &&& (spec_exec_byte_of(b, i) == 0 || spec_exec_byte_of(b, i) == 1)
    &&& (spec_hash_flag_of(b, i) == 0 || spec_hash_flag_of(b, i) == 1)
}

/// Consistency of the footer alone: magic number, known formats, and block
/// offsets and lengths that tile the region before the trailer exactly.
pub open spec fn spec_header_wf(b: Seq<u8>) -> bool {
    let l = b.len() as int;
    &&& l >= TRAILER_SIZE
    &&& spec_magic_of(b) == FOOTER_MAGIC
    &&& spec_meta_entry_size_of(b) == META_ENTRY_SIZE as u64
    &&& AccountMetaFormat::spec_from_code(spec_meta_format_code_of(b)) is Some
    &&& OwnersBlockFormat::spec_from_code(spec_owners_format_code_of(b)) is Some
    &&& IndexBlockFormat::spec_from_code(spec_index_format_code_of(b)) is Some
    &&& AccountBlockFormat::spec_from_code(spec_block_format_code_of(b)) is Some
    &&& spec_owners_offset_of(b) as int + spec_owners_length_of(b) as int == spec_index_offset_of(
        b,
    ) as int
    &&& spec_index_offset_of(b) as int + spec_index_length_of(b) as int == l - TRAILER_SIZE
    &&& spec_owners_length_of(b) as int % ADDRESS_SIZE as int == 0
    &&& spec_index_length_of(b) as int == INDEX_ENTRY_SIZE * spec_record_count_of(b) as int
    &&& (spec_record_count_of(b) == 0 ==> spec_owners_offset_of(b) == 0)
}

/// A well-formed file: consistent footer and one consistent index entry and
/// metadata record for every position.  A reader exposes a file only when
/// this holds of its bytes.
pub open spec fn spec_file_wf(b: Seq<u8>) -> bool {
    &&& spec_header_wf(b)
    &&& forall|i: int| 0 <= i < spec_record_count_of(b) ==> spec_entry_wf(b, i)
}

/// The record a reader decodes at position `i` of a well-formed file.
pub open spec fn spec_record_at(b: Seq<u8>, i: int) -> AccountRecordModel {
    let off = spec_offset_of(b, i) as int;
    let dl = spec_data_len_of(b, i) as int;
    AccountRecordModel {
        address: b.subrange(off, off + ADDRESS_SIZE),
        lamports: le64(b, off + 32),
        owner: spec_owner_addr_at(b, spec_owner_index_of(b, i) as int),
        data: b.subrange(off + META_ENTRY_SIZE, off + META_ENTRY_SIZE + dl),
        executable: spec_exec_byte_of(b, i) == 1,
        hash: if spec_hash_flag_of(b, i) == 1 {
            Some(b.subrange(off + 58, off + 90))
        } else {
            None
        },
        write_version: le64(b, off + 90),
    }
}

} // verus!
