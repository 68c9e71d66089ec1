//! The single-pass writer: encodes a batch of records into the byte image
//! of a sealed storage file.
//!
//! The pass walks the batch once from the requested start position.  For
//! each record it resolves the owner address against a transient
//! deduplication table, appends metadata and payload to the data block,
//! and appends one index entry; afterwards it appends the owners block,
//! the index block, the footer and the magic number.  A batch of zero
//! records still produces the minimal well-formed file: footer and magic
//! number only.

use crate::format::{
    AccountBlockFormat, AccountMetaFormat, IndexBlockFormat, OwnersBlockFormat, FOOTER_MAGIC,
    HASH_SIZE, INDEX_ENTRY_SIZE, META_ENTRY_SIZE,
};
use crate::layout::{
    spec_data_block, spec_encode_meta, spec_encode_record, spec_file_bytes, spec_index_block,
    spec_index_in, spec_owner_index, spec_owners, spec_owners_bytes, spec_record_offset,
    spec_zero_hash,
};
use crate::proofs::{
    lemma_index_in_concat, lemma_index_in_props, lemma_take_one_more, spec_batch_wf,
};
use crate::record::{AccountRecord, AccountRecordModel, Address};
use vstd::bytes::*;
use vstd::prelude::*;

verus! {

/// Where one record landed in the file: the byte offset of its metadata in
/// the data block, and its total encoded size in bytes.
#[derive(Clone, Copy, Debug, PartialEq, Eq, Structural)]
pub struct StoredAccountInfo {
    pub offset: usize,
    pub size: usize,
}

/// The models of the records a write pass encodes: the batch from the
/// start position onward.  A start position past the end yields an empty
/// pass, exactly like a start position at the end.
pub open spec fn spec_models(batch: Seq<AccountRecord>, skip: int) -> Seq<AccountRecordModel> {
    if 0 <= skip <= batch.len() {
        batch.subrange(skip, batch.len() as int).map_values(|r: AccountRecord| r@)
    } else {
        Seq::empty()
    }
}

/// Every record of the batch is well formed and small enough for its
/// encoded size to be computed in a `usize`.
pub open spec fn spec_batch_encodable(batch: Seq<AccountRecord>) -> bool {
    forall|i: int|
        0 <= i < batch.len() ==> (#[trigger] batch[i]).wf() && batch[i]@.data.len()
            <= usize::MAX - META_ENTRY_SIZE
}

/// Appends a copy of `src` to `dst`.
fn append_bytes(dst: &mut Vec<u8>, src: &Vec<u8>)
    ensures
        final(dst)@ == old(dst)@ + src@,
{
    let n = src.len();
    let mut i: usize = 0;
    while i < n
        invariant
            n == src@.len(),
            i <= n,
            dst@ == old(dst)@ + src@.take(i as int),
        decreases n - i,
    {
        dst.push(src[i]);
        assert(dst@ =~= old(dst)@ + src@.take(i + 1));
        i += 1;
    }
    assert(old(dst)@ + src@.take(n as int) =~= old(dst)@ + src@);
}

/// Appends a u64 little-endian.
fn append_u64(dst: &mut Vec<u8>, v: u64)
    ensures
        final(dst)@ == old(dst)@ + spec_u64_to_le_bytes(v),
{
    let mut tmp = u64_to_le_bytes(v);
    dst.append(&mut tmp);
}

/// Appends a u16 little-endian.
fn append_u16(dst: &mut Vec<u8>, v: u16)
    ensures
        final(dst)@ == old(dst)@ + spec_u16_to_le_bytes(v),
{
    let mut tmp = u16_to_le_bytes(v);
    dst.append(&mut tmp);
}

/// Appends the all-zero hash field written for a record with no hash.
fn append_zero_hash(dst: &mut Vec<u8>)
    ensures
        final(dst)@ == old(dst)@ + spec_zero_hash(),
{
    let mut i: usize = 0;
    while i < HASH_SIZE
        invariant
            i <= HASH_SIZE,
            dst@ == old(dst)@ + spec_zero_hash().take(i as int),
        decreases HASH_SIZE - i,
    {
        dst.push(0u8);
        assert(dst@ =~= old(dst)@ + spec_zero_hash().take(i + 1));
        i += 1;
    }
    assert(old(dst)@ + spec_zero_hash().take(HASH_SIZE as int) =~= old(dst)@ + spec_zero_hash());
}

/// Appends the fixed-size metadata of one record.
fn append_meta(dst: &mut Vec<u8>, rec: &AccountRecord, owner_index: u64)
    requires
        rec.wf(),
    ensures
        final(dst)@ == old(dst)@ + spec_encode_meta(rec@, owner_index),
{
    append_bytes(dst, rec.address.bytes());
    append_u64(dst, rec.lamports);
    append_u64(dst, owner_index);
    append_u64(dst, rec.data.len() as u64);
    if rec.executable {
        dst.push(1u8);
    } else {
        dst.push(0u8);
    }
    match &rec.hash {
        Some(h) => {
            dst.push(1u8);
            append_bytes(dst, h.bytes());
        },
        None => {
            dst.push(0u8);
            append_zero_hash(dst);
        },
    }
    append_u64(dst, rec.write_version);
    assert(dst@ =~= old(dst)@ + spec_encode_meta(rec@, owner_index));
}

/// The byte views of a list of addresses.
pub open spec fn spec_addr_views(s: Seq<Address>) -> Seq<Seq<u8>> {
    s.map_values(|a: Address| a@)
}

/// Where the first occurrence of an address sits in a list, given that
/// everything before position `i` differs from it and position `i`, if it
/// exists, matches.
proof fn lemma_index_in_first_match(owners: Seq<Seq<u8>>, o: Seq<u8>, i: int)
    requires
        0 <= i <= owners.len(),
        forall|j: int| 0 <= j < i ==> owners[j] != o,
        i < owners.len() ==> owners[i] == o,
    ensures
        spec_index_in(owners, o) == i,
    decreases owners.len(),
{
    if i == 0 {
        if owners.len() > 0 && owners[0] != o {
            lemma_index_in_props(owners.drop_first(), o);
            assert(!owners.drop_first().contains(o)) by {
                if owners.drop_first().contains(o) {
                    let w = choose|w: int|
                        0 <= w < owners.drop_first().len() && owners.drop_first()[w] == o;
                    assert(owners[w + 1] == o);
                }
            }
            assert(false);
        }
    } else {
        assert(owners[0] != o);
        lemma_index_in_first_match(owners.drop_first(), o, i - 1);
    }
}

/// Linear search of the deduplication table: returns the position of the
/// first entry equal to `target`, or the table's length if there is none.
fn find_owner(owners: &Vec<Address>, target: &Address) -> (r: usize)
    ensures
        r as int == spec_index_in(spec_addr_views(owners@), target@),
        r <= owners@.len(),
{
    let n = owners.len();
    let mut i: usize = 0;
    while i < n
        invariant
            n == owners@.len(),
            i <= n,
            forall|j: int| 0 <= j < i ==> spec_addr_views(owners@)[j] != target@,
        decreases n - i,
    {
        if owners[i].equals(target) {
            proof {
                lemma_index_in_first_match(spec_addr_views(owners@), target@, i as int);
            }
            return i;
        }
        i += 1;
    }
    proof {
        lemma_index_in_first_match(spec_addr_views(owners@), target@, n as int);
    }
    n
}

/// Appends the owners block for the deduplication table.
fn append_owners_block(dst: &mut Vec<u8>, owners: &Vec<Address>)
    ensures
        final(dst)@ == old(dst)@ + spec_owners_bytes(spec_addr_views(owners@)),
{
    let n = owners.len();
    let mut i: usize = 0;
    while i < n
        invariant
            n == owners@.len(),
            i <= n,
            dst@ == old(dst)@ + spec_owners_bytes(spec_addr_views(owners@).take(i as int)),
        decreases n - i,
    {
        append_bytes(dst, owners[i].bytes());
        proof {
            let views = spec_addr_views(owners@);
            lemma_take_one_more(views, i as int);
            assert(spec_owners_bytes(views.take(i + 1)) == spec_owners_bytes(views.take(i as int))
                + views[i as int]);
        }
        i += 1;
    }
    proof {
        assert(spec_addr_views(owners@).take(n as int) =~= spec_addr_views(owners@));
    }
}

/// Encodes the batch from the start position onward into the byte image of
/// a complete sealed file, reporting where each record landed.
pub fn write_batch(batch: &Vec<AccountRecord>, skip: usize) -> (r: (Vec<u8>, Vec<StoredAccountInfo>))
    requires
        spec_batch_encodable(batch@),
    ensures
        spec_batch_wf(spec_models(batch@, skip as int)),
        r.0@ == spec_file_bytes(spec_models(batch@, skip as int)),
        r.1@.len() == spec_models(batch@, skip as int).len(),
        forall|j: int|
            0 <= j < r.1@.len() ==> (#[trigger] r.1@[j]).offset == spec_record_offset(
                spec_models(batch@, skip as int),
                j,
            ) && r.1@[j].size == META_ENTRY_SIZE + spec_models(batch@, skip as int)[j].data.len(),
{
    let ghost models = spec_models(batch@, skip as int);
    let start: usize = if skip <= batch.len() {
        skip
    } else {
        batch.len()
    };
    proof {
        assert(models.len() == batch@.len() - start);
        assert forall|j: int| 0 <= j < models.len() implies #[trigger] models[j] == batch@[start
            + j]@ by {
            assert(models[j] == batch@.subrange(skip as int, batch@.len() as int)[j]@);
        }
        assert forall|j: int| 0 <= j < models.len() implies (#[trigger] models[j]).wf() by {
            assert(models[j] == batch@[start + j]@);
        }
    }
    let mut data: Vec<u8> = Vec::new();
    let mut index: Vec<u8> = Vec::new();
    let mut owners: Vec<Address> = Vec::new();
    let mut infos: Vec<StoredAccountInfo> = Vec::new();
    let mut i: usize = start;
    while i < batch.len()
        invariant
            spec_batch_encodable(batch@),
            models == spec_models(batch@, skip as int),
            spec_batch_wf(models),
            models.len() == batch@.len() - start,
            forall|j: int| 0 <= j < models.len() ==> #[trigger] models[j] == batch@[start + j]@,
            start <= i <= batch@.len(),
            data@ == spec_data_block(models.take(i - start)),
            index@ == spec_index_block(models.take(i - start)),
            spec_addr_views(owners@) == spec_owners(models.take(i - start)),
            infos@.len() == i - start,
            forall|j: int|
                0 <= j < i - start ==> (#[trigger] infos@[j]).offset == spec_record_offset(
                    models,
                    j,
                ) && infos@[j].size == META_ENTRY_SIZE + models[j].data.len(),
        decreases batch@.len() - i,
    {
        let ghost k: int = i - start;
        proof {
            assert(models[k] == batch@[i as int]@);
            lemma_take_one_more(models, k);
        }
        let rec = &batch[i];
        // Resolve the owner through the transient deduplication table.
        let found = find_owner(&owners, &rec.owner);
        proof {
            let prev = spec_owners(models.take(k));
            let cur = spec_owners(models.take(k + 1));
            lemma_index_in_props(prev, rec.owner@);
            if found < owners.len() {
                assert(prev.contains(rec.owner@));
                assert(cur == prev);
            } else {
                assert(!prev.contains(rec.owner@));
                assert(cur == prev.push(rec.owner@));
                lemma_index_in_concat(prev, seq![rec.owner@], rec.owner@);
                assert(prev + seq![rec.owner@] =~= prev.push(rec.owner@));
                assert(spec_index_in(seq![rec.owner@], rec.owner@) == 0);
            }
            assert(spec_owner_index(models, k) == found);
        }
        let ghost owners_before = owners@;
        if found == owners.len() {
            owners.push(rec.owner.clone());
            proof {
                assert(spec_addr_views(owners@) =~= spec_addr_views(owners_before).push(
                    rec.owner@,
                ));
            }
        }
        let off: usize = data.len();
        proof {
            assert(off == spec_record_offset(models, k));
        }
        infos.push(StoredAccountInfo { offset: off, size: META_ENTRY_SIZE + rec.data.len() });
        append_meta(&mut data, rec, found as u64);
        append_bytes(&mut data, &rec.data);
        append_u64(&mut index, (i - start) as u64);
        append_u64(&mut index, off as u64);
        proof {
            assert(data@ =~= spec_data_block(models.take(k)) + spec_encode_record(
                models[k],
                spec_owner_index(models, k) as u64,
            ));
            assert(spec_data_block(models.take(k + 1)) == spec_data_block(models.take(k))
                + spec_encode_record(
                models.take(k + 1).last(),
                spec_owner_index(models.take(k + 1), k) as u64,
            ));
            assert(models.take(k + 1).take(k + 1) =~= models.take(k + 1));
            assert(spec_owner_index(models.take(k + 1), k) == spec_owner_index(models, k));
            assert(index@ =~= spec_index_block(models.take(k + 1)));
        }
        i += 1;
    }
    proof {
        assert(models.take(models.len() as int) =~= models);
        assert(data@ == spec_data_block(models));
        assert(index@ == spec_index_block(models));
        assert(spec_addr_views(owners@) == spec_owners(models));
    }
    // Assemble the file: data block, owners block, index block, footer,
    // magic number.
    let data_len: usize = data.len();
    let index_len: usize = index.len();
    let count: usize = batch.len() - start;
    let mut bytes = data;
    append_owners_block(&mut bytes, &owners);
    let owners_len: usize = bytes.len() - data_len;
    let owners_end: usize = bytes.len();
    append_bytes(&mut bytes, &index);
    proof {
        crate::proofs::lemma_owners_wf(models);
        crate::proofs::lemma_owners_bytes_len(spec_owners(models));
        crate::proofs::lemma_index_block_len(models);
    }
    append_u64(&mut bytes, META_ENTRY_SIZE as u64);
    append_u16(&mut bytes, AccountMetaFormat::Hot.code());
    append_u16(&mut bytes, OwnersBlockFormat::AddressesOnly.code());
    append_u16(&mut bytes, IndexBlockFormat::AddressesThenOffsets.code());
    append_u16(&mut bytes, AccountBlockFormat::AlignedRaw.code());
    append_u64(&mut bytes, data_len as u64);
    append_u64(&mut bytes, owners_len as u64);
    append_u64(&mut bytes, owners_end as u64);
    append_u64(&mut bytes, index_len as u64);
    append_u64(&mut bytes, count as u64);
    append_u64(&mut bytes, FOOTER_MAGIC);
    proof {
        assert(count == models.len());
        assert(index_len == INDEX_ENTRY_SIZE * models.len());
        assert(bytes@ =~= spec_file_bytes(models));
    }
    (bytes, infos)
}

} // verus!
