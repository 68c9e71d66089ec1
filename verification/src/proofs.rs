//! Proofs about the byte layout.
//!
//! The central result is [`lemma_round_trip`]: the byte image written for
//! any well-formed batch validates as a well-formed file, records the
//! batch's length as its record count, and decodes at every position to
//! exactly the record that was written there.  The other lemmas here are
//! the structural facts it rests on: block lengths, extraction of a piece
//! of a concatenation, and the behaviour of the owner deduplication.

use crate::format::{
    AccountBlockFormat, AccountMetaFormat, IndexBlockFormat, OwnersBlockFormat, ADDRESS_SIZE,
    FOOTER_MAGIC, HASH_SIZE, INDEX_ENTRY_SIZE, META_ENTRY_SIZE, TRAILER_SIZE,
};
use crate::layout::{
    spec_data_block, spec_encode_meta, spec_encode_record, spec_file_bytes, spec_index_block,
    spec_index_in, spec_index_length_of, spec_index_offset_of, spec_magic_of,
    spec_meta_entry_size_of, spec_meta_format_code_of, spec_block_format_code_of,
    spec_index_format_code_of, spec_owner_index, spec_owners, spec_owners_bytes,
    spec_owners_format_code_of, spec_owners_length_of, spec_owners_offset_of,
    spec_record_count_of, spec_record_offset, le64, spec_data_len_of, spec_entry_wf,
    spec_exec_byte_of, spec_file_wf, spec_footer_bytes, spec_hash_flag_of, spec_offset_of,
    spec_owner_addr_at, spec_owner_index_of, spec_record_at, spec_slot_of, spec_zero_hash,
};
use crate::record::AccountRecordModel;
use vstd::bytes::*;
use vstd::prelude::*;

verus! {

/// Every record of the batch is well formed.
pub open spec fn spec_batch_wf(models: Seq<AccountRecordModel>) -> bool {
    forall|i: int| 0 <= i < models.len() ==> (#[trigger] models[i]).wf()
}

/// Every owner address in the list holds exactly `ADDRESS_SIZE` bytes.
pub open spec fn spec_owner_list_wf(owners: Seq<Seq<u8>>) -> bool {
    forall|k: int| 0 <= k < owners.len() ==> (#[trigger] owners[k]).len() == ADDRESS_SIZE
}

/// An encoded metadata entry is exactly `META_ENTRY_SIZE` bytes, so an
/// encoded record is that plus its payload.
pub proof fn lemma_encode_record_len(m: AccountRecordModel, owner_index: u64)
    requires
        m.wf(),
    ensures
        spec_encode_meta(m, owner_index).len() == META_ENTRY_SIZE,
        spec_encode_record(m, owner_index).len() == META_ENTRY_SIZE + m.data.len(),
{
    lemma_auto_spec_u64_to_from_le_bytes();
}

/// Taking one more element of a sequence appends that element.
pub proof fn lemma_take_one_more<A>(s: Seq<A>, i: int)
    requires
        0 <= i < s.len(),
    ensures
        s.take(i + 1).drop_last() == s.take(i),
        s.take(i + 1).last() == s[i],
        s.take(i + 1).len() == i + 1,
{
    assert(s.take(i + 1).drop_last() =~= s.take(i));
}

/// Taking the same prefix of a sequence and of that sequence shortened by
/// its last element gives the same result.
pub proof fn lemma_take_of_drop_last<A>(s: Seq<A>, i: int)
    requires
        0 <= i <= s.len() - 1,
    ensures
        s.drop_last().take(i) == s.take(i),
{
    assert(s.drop_last().take(i) =~= s.take(i));
}

/// A subrange of a concatenation that lies inside the left part.
pub proof fn lemma_concat_subrange_left(a: Seq<u8>, b: Seq<u8>, i: int, j: int)
    requires
        0 <= i <= j <= a.len(),
    ensures
        (a + b).subrange(i, j) == a.subrange(i, j),
{
    assert((a + b).subrange(i, j) =~= a.subrange(i, j));
}

/// A subrange of a concatenation that lies inside the right part.
pub proof fn lemma_concat_subrange_right(a: Seq<u8>, b: Seq<u8>, i: int, j: int)
    requires
        a.len() <= i <= j <= a.len() + b.len(),
    ensures
        (a + b).subrange(i, j) == b.subrange(i - a.len(), j - a.len()),
{
    assert((a + b).subrange(i, j) =~= b.subrange(i - a.len(), j - a.len()));
}

/// A subrange of a subrange, as one subrange of the whole.
pub proof fn lemma_subrange_of_subrange(s: Seq<u8>, i: int, j: int, k: int, l: int)
    requires
        0 <= i <= j <= s.len(),
        0 <= k <= l <= j - i,
    ensures
        s.subrange(i, j).subrange(k, l) == s.subrange(i + k, i + l),
{
    assert(s.subrange(i, j).subrange(k, l) =~= s.subrange(i + k, i + l));
}

/// Where the first occurrence of an address sits in an owner list: it is a
/// position of the list exactly when the address occurs at all, and the
/// list holds the address there.
pub proof fn lemma_index_in_props(owners: Seq<Seq<u8>>, o: Seq<u8>)
    ensures
        0 <= spec_index_in(owners, o) <= owners.len(),
        owners.contains(o) <==> spec_index_in(owners, o) < owners.len(),
        owners.contains(o) ==> owners[spec_index_in(owners, o)] == o,
    decreases owners.len(),
{
    if owners.len() == 0 {
        assert(!owners.contains(o));
    } else if owners[0] == o {
        assert(owners.contains(o));
    } else {
        let rest = owners.drop_first();
        lemma_index_in_props(rest, o);
        assert(owners.contains(o) <==> rest.contains(o)) by {
            if owners.contains(o) {
                let w = choose|w: int| 0 <= w < owners.len() && owners[w] == o;
                assert(rest[w - 1] == o);
                assert(rest.contains(o));
            }
            if rest.contains(o) {
                let w = choose|w: int| 0 <= w < rest.len() && rest[w] == o;
                assert(owners[w + 1] == o);
                assert(owners.contains(o));
            }
        }
        if owners.contains(o) {
            assert(owners[spec_index_in(owners, o)] == rest[spec_index_in(rest, o)]);
        }
    }
}

/// The first occurrence of an address that already occurs in the left part
/// of a concatenation is its first occurrence in the left part; otherwise
/// the search continues past it.
pub proof fn lemma_index_in_concat(a: Seq<Seq<u8>>, b: Seq<Seq<u8>>, o: Seq<u8>)
    ensures
        a.contains(o) ==> spec_index_in(a + b, o) == spec_index_in(a, o),
        !a.contains(o) ==> spec_index_in(a + b, o) == a.len() + spec_index_in(b, o),
    decreases a.len(),
{
    if a.len() == 0 {
        assert(!a.contains(o));
        assert(a + b =~= b);
    } else if a[0] == o {
        assert(a.contains(o));
        assert((a + b)[0] == o);
    } else {
        let arest = a.drop_first();
        lemma_index_in_concat(arest, b, o);
        lemma_index_in_props(a, o);
        lemma_index_in_props(arest, o);
        assert((a + b)[0] == a[0]);
        assert((a + b).drop_first() =~= arest + b);
        assert(a.contains(o) <==> arest.contains(o)) by {
            if a.contains(o) {
                let w = choose|w: int| 0 <= w < a.len() && a[w] == o;
                assert(arest[w - 1] == o);
                assert(arest.contains(o));
            }
            if arest.contains(o) {
                let w = choose|w: int| 0 <= w < arest.len() && arest[w] == o;
                assert(a[w + 1] == o);
                assert(a.contains(o));
            }
        }
    }
}

/// The owner list of a batch: no longer than the batch, all addresses the
/// right size, and containing exactly the owners of the batch's records.
pub proof fn lemma_owners_wf(models: Seq<AccountRecordModel>)
    requires
        spec_batch_wf(models),
    ensures
        spec_owners(models).len() <= models.len(),
        spec_owner_list_wf(spec_owners(models)),
    decreases models.len(),
{
    if models.len() > 0 {
        assert(spec_batch_wf(models.drop_last())) by {
            assert(forall|i: int|
                0 <= i < models.len() - 1 ==> models.drop_last()[i] == #[trigger] models[i]);
        }
        lemma_owners_wf(models.drop_last());
        let prev = spec_owners(models.drop_last());
        if !prev.contains(models.last().owner) {
            assert(models.last().wf());
            assert(spec_owner_list_wf(prev.push(models.last().owner))) by {
                assert(forall|k: int|
                    0 <= k < prev.len() ==> prev.push(models.last().owner)[k] == #[trigger] prev[k]);
            }
        }
    }
}

/// The owner list of a prefix of a batch is a prefix of the batch's owner
/// list.
pub proof fn lemma_owners_take_prefix(models: Seq<AccountRecordModel>, i: int)
    requires
        0 <= i <= models.len(),
    ensures
        spec_owners(models.take(i)).is_prefix_of(spec_owners(models)),
    decreases models.len() - i,
{
    if i == models.len() {
        assert(models.take(i) =~= models);
        assert(spec_owners(models).is_prefix_of(spec_owners(models)));
    } else {
        lemma_owners_take_prefix(models, i + 1);
        let cur = models.take(i + 1);
        lemma_take_one_more(models, i);
        assert(cur.drop_last() == models.take(i));
        let prev = spec_owners(models.take(i));
        let next = spec_owners(cur);
        assert(prev.is_prefix_of(next)) by {
            if prev.contains(cur.last().owner) {
                assert(next == prev);
            } else {
                assert(next == prev.push(cur.last().owner));
                assert(prev =~= next.subrange(0, prev.len() as int));
            }
        }
        assert(prev.is_prefix_of(spec_owners(models))) by {
            let full = spec_owners(models);
            assert(next =~= full.subrange(0, next.len() as int));
            assert(prev =~= next.subrange(0, prev.len() as int));
            assert(prev =~= full.subrange(0, prev.len() as int));
        }
    }
}

/// The owner index assigned to record `i` points into the batch's owner
/// list, at the record's owner address.
pub proof fn lemma_owner_index_props(models: Seq<AccountRecordModel>, i: int)
    requires
        0 <= i < models.len(),
    ensures
        0 <= spec_owner_index(models, i) < spec_owners(models).len(),
        spec_owners(models)[spec_owner_index(models, i)] == models[i].owner,
{
    let cur = models.take(i + 1);
    lemma_take_one_more(models, i);
    let pre = spec_owners(cur);
    assert(pre.contains(models[i].owner)) by {
        let prev = spec_owners(cur.drop_last());
        if prev.contains(cur.last().owner) {
            let w = choose|w: int| 0 <= w < prev.len() && prev[w] == cur.last().owner;
            assert(pre[w] == cur.last().owner);
        } else {
            assert(pre[pre.len() - 1] == cur.last().owner);
        }
    }
    lemma_index_in_props(pre, models[i].owner);
    lemma_owners_take_prefix(models, i + 1);
    let full = spec_owners(models);
    let tail = full.subrange(pre.len() as int, full.len() as int);
    assert(full =~= pre + tail);
    lemma_index_in_concat(pre, tail, models[i].owner);
    assert(spec_index_in(full, models[i].owner) == spec_index_in(pre, models[i].owner));
    lemma_index_in_props(full, models[i].owner);
    assert(full.contains(models[i].owner)) by {
        let w = spec_index_in(pre, models[i].owner);
        assert(full[w] == pre[w]);
    }
}

/// Length of the index block: one entry per record.
pub proof fn lemma_index_block_len(models: Seq<AccountRecordModel>)
    ensures
        spec_index_block(models).len() == INDEX_ENTRY_SIZE * models.len(),
    decreases models.len(),
{
    lemma_auto_spec_u64_to_from_le_bytes();
    if models.len() > 0 {
        lemma_index_block_len(models.drop_last());
    }
}

/// Length of the owners block: one address-sized slot per owner.
pub proof fn lemma_owners_bytes_len(owners: Seq<Seq<u8>>)
    requires
        spec_owner_list_wf(owners),
    ensures
        spec_owners_bytes(owners).len() == ADDRESS_SIZE * owners.len(),
    decreases owners.len(),
{
    if owners.len() > 0 {
        assert(spec_owner_list_wf(owners.drop_last())) by {
            assert(forall|k: int|
                0 <= k < owners.len() - 1 ==> owners.drop_last()[k] == #[trigger] owners[k]);
        }
        lemma_owners_bytes_len(owners.drop_last());
        assert(owners.last().len() == ADDRESS_SIZE);
    }
}

/// One write step moves the cursor by the encoded size of the record.
pub proof fn lemma_record_offset_step(models: Seq<AccountRecordModel>, i: int)
    requires
        spec_batch_wf(models),
        0 <= i < models.len(),
    ensures
        spec_record_offset(models, i + 1) == spec_record_offset(models, i) + META_ENTRY_SIZE
            + models[i].data.len(),
{
    let cur = models.take(i + 1);
    lemma_take_one_more(models, i);
    assert(spec_data_block(cur) == spec_data_block(models.take(i)) + spec_encode_record(
        models[i],
        spec_owner_index(cur, cur.len() - 1) as u64,
    ));
    assert(cur.take(i + 1) =~= cur);
    assert(spec_owner_index(cur, cur.len() - 1) == spec_owner_index(models, i)) by {
        assert(cur.take(i + 1) =~= models.take(i + 1));
        assert(cur[i] == models[i]);
    }
    lemma_encode_record_len(models[i], spec_owner_index(models, i) as u64);
}

/// Record offsets never decrease along the batch.
pub proof fn lemma_record_offset_monotonic(models: Seq<AccountRecordModel>, i: int, j: int)
    requires
        spec_batch_wf(models),
        0 <= i <= j <= models.len(),
    ensures
        spec_record_offset(models, i) <= spec_record_offset(models, j),
    decreases j - i,
{
    if i < j {
        lemma_record_offset_step(models, i);
        lemma_record_offset_monotonic(models, i + 1, j);
    }
}

/// The data block ends where the offset past the last record ends, and
/// starts at offset zero.
pub proof fn lemma_record_offset_ends(models: Seq<AccountRecordModel>)
    ensures
        spec_record_offset(models, 0) == 0,
        spec_record_offset(models, models.len() as int) == spec_data_block(models).len(),
{
    assert(models.take(0) =~= Seq::<AccountRecordModel>::empty());
    assert(models.take(models.len() as int) =~= models);
}

/// Shortening a batch by its last record leaves every earlier record's
/// offset and owner index unchanged.
pub proof fn lemma_drop_last_stable(models: Seq<AccountRecordModel>, i: int)
    requires
        0 <= i < models.len() - 1,
    ensures
        spec_record_offset(models.drop_last(), i) == spec_record_offset(models, i),
        spec_owner_index(models.drop_last(), i) == spec_owner_index(models, i),
        models.drop_last()[i] == models[i],
{
    lemma_take_of_drop_last(models, i);
    lemma_take_of_drop_last(models, i + 1);
}

/// The bytes of index entry `i`: the slot, then the record's offset.
pub proof fn lemma_index_block_entry(models: Seq<AccountRecordModel>, i: int)
    requires
        0 <= i < models.len(),
    ensures
        spec_index_block(models).subrange(
            INDEX_ENTRY_SIZE * i,
            INDEX_ENTRY_SIZE * i + INDEX_ENTRY_SIZE,
        ) == spec_u64_to_le_bytes(i as u64) + spec_u64_to_le_bytes(
            spec_record_offset(models, i) as u64,
        ),
    decreases models.len(),
{
    lemma_auto_spec_u64_to_from_le_bytes();
    let prev = spec_index_block(models.drop_last());
    let e1 = spec_u64_to_le_bytes((models.len() - 1) as u64);
    let e2 = spec_u64_to_le_bytes(spec_record_offset(models, models.len() - 1) as u64);
    lemma_index_block_len(models.drop_last());
    assert(spec_index_block(models) =~= prev + (e1 + e2));
    if i == models.len() - 1 {
        lemma_concat_subrange_right(
            prev,
            e1 + e2,
            INDEX_ENTRY_SIZE * i,
            INDEX_ENTRY_SIZE * i + INDEX_ENTRY_SIZE,
        );
        assert((e1 + e2).subrange(0, INDEX_ENTRY_SIZE as int) =~= e1 + e2);
    } else {
        lemma_index_block_entry(models.drop_last(), i);
        lemma_concat_subrange_left(
            prev,
            e1 + e2,
            INDEX_ENTRY_SIZE * i,
            INDEX_ENTRY_SIZE * i + INDEX_ENTRY_SIZE,
        );
        lemma_take_of_drop_last(models, i);
    }
}

/// The bytes of the data block between record `i`'s offset and the next
/// offset are exactly record `i`'s encoding.
pub proof fn lemma_data_block_record(models: Seq<AccountRecordModel>, i: int)
    requires
        spec_batch_wf(models),
        0 <= i < models.len(),
    ensures
        spec_data_block(models).subrange(
            spec_record_offset(models, i),
            spec_record_offset(models, i) + META_ENTRY_SIZE + models[i].data.len(),
        ) == spec_encode_record(models[i], spec_owner_index(models, i) as u64),
    decreases models.len(),
{
    let last_index = models.len() - 1;
    let rec = spec_encode_record(models.last(), spec_owner_index(models, last_index) as u64);
    let prev = spec_data_block(models.drop_last());
    assert(spec_data_block(models) == prev + rec) by {
        assert(spec_owner_index(models, models.len() - 1) == spec_owner_index(
            models,
            last_index,
        ));
    }
    assert(models.last().wf());
    lemma_encode_record_len(models.last(), spec_owner_index(models, last_index) as u64);
    if i == last_index {
        assert(models.take(i) =~= models.drop_last());
        assert(spec_record_offset(models, i) == prev.len());
        lemma_concat_subrange_right(
            prev,
            rec,
            spec_record_offset(models, i),
            spec_record_offset(models, i) + META_ENTRY_SIZE + models[i].data.len(),
        );
        assert(rec.subrange(0, rec.len() as int) =~= rec);
    } else {
        assert(spec_batch_wf(models.drop_last())) by {
            assert(forall|j: int|
                0 <= j < models.len() - 1 ==> models.drop_last()[j] == #[trigger] models[j]);
        }
        lemma_data_block_record(models.drop_last(), i);
        lemma_drop_last_stable(models, i);
        lemma_record_offset_step(models.drop_last(), i);
        lemma_record_offset_monotonic(models.drop_last(), i + 1, models.len() - 1);
        lemma_record_offset_ends(models.drop_last());
        lemma_concat_subrange_left(
            prev,
            rec,
            spec_record_offset(models, i),
            spec_record_offset(models, i) + META_ENTRY_SIZE + models[i].data.len(),
        );
    }
}

/// The bytes of slot `k` of the owners block are owner address `k`.
pub proof fn lemma_owners_bytes_at(owners: Seq<Seq<u8>>, k: int)
    requires
        spec_owner_list_wf(owners),
        0 <= k < owners.len(),
    ensures
        spec_owners_bytes(owners).subrange(
            ADDRESS_SIZE * k,
            ADDRESS_SIZE * k + ADDRESS_SIZE,
        ) == owners[k],
    decreases owners.len(),
{
    assert(spec_owner_list_wf(owners.drop_last())) by {
        assert(forall|j: int|
            0 <= j < owners.len() - 1 ==> owners.drop_last()[j] == #[trigger] owners[j]);
    }
    let prev = spec_owners_bytes(owners.drop_last());
    lemma_owners_bytes_len(owners.drop_last());
    assert(owners.last().len() == ADDRESS_SIZE);
    if k == owners.len() - 1 {
        lemma_concat_subrange_right(
            prev,
            owners.last(),
            ADDRESS_SIZE * k,
            ADDRESS_SIZE * k + ADDRESS_SIZE,
        );
        assert(owners.last().subrange(0, ADDRESS_SIZE as int) =~= owners.last());
    } else {
        lemma_owners_bytes_at(owners.drop_last(), k);
        lemma_concat_subrange_left(
            prev,
            owners.last(),
            ADDRESS_SIZE * k,
            ADDRESS_SIZE * k + ADDRESS_SIZE,
        );
    }
}

/// Total length of the file image written for a batch.
pub open spec fn spec_total_len(models: Seq<AccountRecordModel>) -> int {
    spec_data_block(models).len() + ADDRESS_SIZE * spec_owners(models).len() + INDEX_ENTRY_SIZE
        * models.len() + TRAILER_SIZE
}

/// The file image fits the 8-byte offset and length fields of the footer.
pub open spec fn spec_file_fits(models: Seq<AccountRecordModel>) -> bool {
    spec_total_len(models) <= u64::MAX
}

/// The length of the written file image: the three blocks plus the
/// trailer.  In particular, a batch of zero records yields exactly the
/// trailer: footer plus magic number.
pub proof fn lemma_file_len(models: Seq<AccountRecordModel>)
    requires
        spec_batch_wf(models),
    ensures
        spec_file_bytes(models).len() == spec_total_len(models),
        models.len() == 0 ==> spec_file_bytes(models).len() == TRAILER_SIZE,
{
    lemma_auto_spec_u64_to_from_le_bytes();
    lemma_auto_spec_u16_to_from_le_bytes();
    lemma_owners_wf(models);
    lemma_owners_bytes_len(spec_owners(models));
    lemma_index_block_len(models);
}

/// Every footer field of the written file image reads back as the value
/// the write pass put there.
pub proof fn lemma_footer_fields(models: Seq<AccountRecordModel>)
    requires
        spec_batch_wf(models),
        spec_file_fits(models),
    ensures
        spec_file_bytes(models).len() == spec_total_len(models),
        spec_magic_of(spec_file_bytes(models)) == FOOTER_MAGIC,
        spec_meta_entry_size_of(spec_file_bytes(models)) == META_ENTRY_SIZE as u64,
        spec_meta_format_code_of(spec_file_bytes(models)) == 1,
        spec_owners_format_code_of(spec_file_bytes(models)) == 1,
        spec_index_format_code_of(spec_file_bytes(models)) == 1,
        spec_block_format_code_of(spec_file_bytes(models)) == 1,
        spec_owners_offset_of(spec_file_bytes(models)) as int == spec_data_block(models).len(),
        spec_owners_length_of(spec_file_bytes(models)) as int == ADDRESS_SIZE * spec_owners(
            models,
        ).len(),
        spec_index_offset_of(spec_file_bytes(models)) as int == spec_data_block(models).len()
            + ADDRESS_SIZE * spec_owners(models).len(),
        spec_index_length_of(spec_file_bytes(models)) as int == INDEX_ENTRY_SIZE * models.len(),
        spec_record_count_of(spec_file_bytes(models)) as int == models.len(),
{
    lemma_auto_spec_u64_to_from_le_bytes();
    lemma_auto_spec_u16_to_from_le_bytes();
    lemma_owners_wf(models);
    lemma_owners_bytes_len(spec_owners(models));
    lemma_index_block_len(models);
    let dlen = spec_data_block(models).len() as int;
    let wlen = ADDRESS_SIZE * spec_owners(models).len();
    let ilen = INDEX_ENTRY_SIZE * models.len();
    let p = spec_data_block(models) + spec_owners_bytes(spec_owners(models)) + spec_index_block(
        models,
    );
    let c1 = spec_u64_to_le_bytes(META_ENTRY_SIZE as u64);
    let c2 = spec_u16_to_le_bytes(AccountMetaFormat::Hot.spec_code());
    let c3 = spec_u16_to_le_bytes(OwnersBlockFormat::AddressesOnly.spec_code());
    let c4 = spec_u16_to_le_bytes(IndexBlockFormat::AddressesThenOffsets.spec_code());
    let c5 = spec_u16_to_le_bytes(AccountBlockFormat::AlignedRaw.spec_code());
    let c6 = spec_u64_to_le_bytes(dlen as u64);
    let c7 = spec_u64_to_le_bytes(wlen as u64);
    let c8 = spec_u64_to_le_bytes((dlen + wlen) as u64);
    let c9 = spec_u64_to_le_bytes(ilen as u64);
    let c10 = spec_u64_to_le_bytes(models.len() as u64);
    let mg = spec_u64_to_le_bytes(FOOTER_MAGIC);
    let t = c1 + c2 + c3 + c4 + c5 + c6 + c7 + c8 + c9 + c10 + mg;
    assert(t.len() == TRAILER_SIZE);
    let b = spec_file_bytes(models);
    assert(b =~= p + t);
    let l = b.len() as int;
    assert(l == p.len() + TRAILER_SIZE);
    assert(l == spec_total_len(models));
    lemma_concat_subrange_right(p, t, l - 64, l - 56);
    lemma_concat_subrange_right(p, t, l - 56, l - 54);
    lemma_concat_subrange_right(p, t, l - 54, l - 52);
    lemma_concat_subrange_right(p, t, l - 52, l - 50);
    lemma_concat_subrange_right(p, t, l - 50, l - 48);
    lemma_concat_subrange_right(p, t, l - 48, l - 40);
    lemma_concat_subrange_right(p, t, l - 40, l - 32);
    lemma_concat_subrange_right(p, t, l - 32, l - 24);
    lemma_concat_subrange_right(p, t, l - 24, l - 16);
    lemma_concat_subrange_right(p, t, l - 16, l - 8);
    lemma_concat_subrange_right(p, t, l - 8, l);
    assert(t.subrange(0, 8) =~= c1);
    assert(t.subrange(8, 10) =~= c2);
    assert(t.subrange(10, 12) =~= c3);
    assert(t.subrange(12, 14) =~= c4);
    assert(t.subrange(14, 16) =~= c5);
    assert(t.subrange(16, 24) =~= c6);
    assert(t.subrange(24, 32) =~= c7);
    assert(t.subrange(32, 40) =~= c8);
    assert(t.subrange(40, 48) =~= c9);
    assert(t.subrange(48, 56) =~= c10);
    assert(t.subrange(56, 64) =~= mg);
}

/// Index entry `i` of the written file reads back as position `i` and the
/// offset the write pass assigned to record `i`.
pub proof fn lemma_file_index_entry(models: Seq<AccountRecordModel>, i: int)
    requires
        spec_batch_wf(models),
        spec_file_fits(models),
        0 <= i < models.len(),
    ensures
        spec_slot_of(spec_file_bytes(models), i) == i as u64,
        spec_offset_of(spec_file_bytes(models), i) as int == spec_record_offset(models, i),
{
    lemma_auto_spec_u64_to_from_le_bytes();
    lemma_auto_spec_u16_to_from_le_bytes();
    lemma_footer_fields(models);
    lemma_owners_wf(models);
    lemma_owners_bytes_len(spec_owners(models));
    lemma_index_block_len(models);
    let d = spec_data_block(models);
    let w = spec_owners_bytes(spec_owners(models));
    let x = spec_index_block(models);
    let b = spec_file_bytes(models);
    let t = spec_footer_bytes(models) + spec_u64_to_le_bytes(FOOTER_MAGIC);
    let p = d + w + x;
    assert(t.len() == TRAILER_SIZE);
    assert(b =~= p + t);
    let io = d.len() + ADDRESS_SIZE * spec_owners(models).len();
    assert(spec_index_offset_of(b) as int == io);
    let lo = io + INDEX_ENTRY_SIZE * i;
    lemma_concat_subrange_left(p, t, lo, lo + 8);
    lemma_concat_subrange_left(p, t, lo + 8, lo + 16);
    lemma_concat_subrange_right(d + w, x, lo, lo + 8);
    lemma_concat_subrange_right(d + w, x, lo + 8, lo + 16);
    lemma_index_block_entry(models, i);
    let e1 = spec_u64_to_le_bytes(i as u64);
    let e2 = spec_u64_to_le_bytes(spec_record_offset(models, i) as u64);
    lemma_subrange_of_subrange(
        x,
        INDEX_ENTRY_SIZE * i,
        INDEX_ENTRY_SIZE * i + INDEX_ENTRY_SIZE,
        0,
        8,
    );
    lemma_subrange_of_subrange(
        x,
        INDEX_ENTRY_SIZE * i,
        INDEX_ENTRY_SIZE * i + INDEX_ENTRY_SIZE,
        8,
        16,
    );
    assert((e1 + e2).subrange(0, 8) =~= e1);
    assert((e1 + e2).subrange(8, 16) =~= e2);
    lemma_record_offset_monotonic(models, i, models.len() as int);
    lemma_record_offset_monotonic(models, 0, i);
    lemma_record_offset_ends(models);
}

/// The metadata and payload of record `i` of the written file read back as
/// the values the write pass encoded there.
#[verifier::rlimit(100)]
#[verifier::spinoff_prover]
pub proof fn lemma_file_meta_fields(models: Seq<AccountRecordModel>, i: int)
    requires
        spec_batch_wf(models),
        spec_file_fits(models),
        0 <= i < models.len(),
    ensures
        spec_offset_of(spec_file_bytes(models), i) as int == spec_record_offset(models, i),
        spec_data_len_of(spec_file_bytes(models), i) as int == models[i].data.len(),
        spec_owner_index_of(spec_file_bytes(models), i) as int == spec_owner_index(models, i),
        spec_file_bytes(models).subrange(
            spec_record_offset(models, i),
            spec_record_offset(models, i) + ADDRESS_SIZE,
        ) == models[i].address,
        le64(spec_file_bytes(models), spec_record_offset(models, i) + 32) == models[i].lamports,
        spec_exec_byte_of(spec_file_bytes(models), i) == if models[i].executable {
            1u8
        } else {
            0u8
        },
        spec_hash_flag_of(spec_file_bytes(models), i) == if models[i].hash is Some {
            1u8
        } else {
            0u8
        },
        spec_file_bytes(models).subrange(
            spec_record_offset(models, i) + 58,
            spec_record_offset(models, i) + 90,
        ) == match models[i].hash {
            Some(h) => h,
            None => spec_zero_hash(),
        },
        le64(spec_file_bytes(models), spec_record_offset(models, i) + 90) == models[
            i
        ].write_version,
        spec_file_bytes(models).subrange(
            spec_record_offset(models, i) + META_ENTRY_SIZE,
            spec_record_offset(models, i) + META_ENTRY_SIZE + models[i].data.len(),
        ) == models[i].data,
{
    lemma_auto_spec_u64_to_from_le_bytes();
    lemma_auto_spec_u16_to_from_le_bytes();
    lemma_file_index_entry(models, i);
    lemma_footer_fields(models);
    lemma_owners_wf(models);
    lemma_owners_bytes_len(spec_owners(models));
    lemma_index_block_len(models);
    lemma_owner_index_props(models, i);
    let d = spec_data_block(models);
    let w = spec_owners_bytes(spec_owners(models));
    let x = spec_index_block(models);
    let b = spec_file_bytes(models);
    let t = spec_footer_bytes(models) + spec_u64_to_le_bytes(FOOTER_MAGIC);
    assert(t.len() == TRAILER_SIZE);
    let rest = w + (x + t);
    assert(b =~= d + rest);
    let off = spec_record_offset(models, i);
    let dl = models[i].data.len() as int;
    let idx = spec_owner_index(models, i);
    lemma_record_offset_step(models, i);
    lemma_record_offset_monotonic(models, i + 1, models.len() as int);
    lemma_record_offset_ends(models);
    assert(off + META_ENTRY_SIZE + dl <= d.len());
    lemma_data_block_record(models, i);
    let rec = spec_encode_record(models[i], idx as u64);
    assert(d.subrange(off, off + META_ENTRY_SIZE + dl) == rec);
    assert(models[i].wf());
    lemma_encode_record_len(models[i], idx as u64);
    let m = models[i];
    let m1 = m.address;
    let m2 = spec_u64_to_le_bytes(m.lamports);
    let m3 = spec_u64_to_le_bytes(idx as u64);
    let m4 = spec_u64_to_le_bytes(m.data.len() as u64);
    let m5 = seq![if m.executable { 1u8 } else { 0u8 }];
    let m6 = seq![if m.hash is Some { 1u8 } else { 0u8 }];
    let m7 = match m.hash {
        Some(h) => h,
        None => spec_zero_hash(),
    };
    let m8 = spec_u64_to_le_bytes(m.write_version);
    assert(m7.len() == HASH_SIZE);
    assert(rec == m1 + m2 + m3 + m4 + m5 + m6 + m7 + m8 + m.data);
    // Every field region of the record, first as a subrange of the data
    // block, then as a subrange of the record's own encoding.
    assert forall|k: int, e: int| 0 <= k <= e <= META_ENTRY_SIZE + dl implies #[trigger] b
        .subrange(off + k, off + e) == rec.subrange(k, e) by {
        lemma_concat_subrange_left(d, rest, off + k, off + e);
        lemma_subrange_of_subrange(d, off, off + META_ENTRY_SIZE + dl, k, e);
    }
    assert(b.subrange(off + 0, off + 32) == rec.subrange(0, 32));
    assert(rec.subrange(0, 32) =~= m1);
    assert(b.subrange(off, off + ADDRESS_SIZE) == m1);
    assert(b.subrange(off + 32, off + 40) == rec.subrange(32, 40));
    assert(rec.subrange(32, 40) =~= m2);
    assert(b.subrange(off + 40, off + 48) == rec.subrange(40, 48));
    assert(rec.subrange(40, 48) =~= m3);
    assert(b.subrange(off + 48, off + 56) == rec.subrange(48, 56));
    assert(rec.subrange(48, 56) =~= m4);
    assert(b.subrange(off + 56, off + 57) == rec.subrange(56, 57));
    assert(rec.subrange(56, 57) =~= m5);
    assert(spec_exec_byte_of(b, i) == b.subrange(off + 56, off + 57)[0]);
    assert(b.subrange(off + 57, off + 58) == rec.subrange(57, 58));
    assert(rec.subrange(57, 58) =~= m6);
    assert(spec_hash_flag_of(b, i) == b.subrange(off + 57, off + 58)[0]);
    assert(b.subrange(off + 58, off + 90) == rec.subrange(58, 90));
    assert(rec.subrange(58, 90) =~= m7);
    assert(b.subrange(off + 90, off + 98) == rec.subrange(90, 98));
    assert(rec.subrange(90, 98) =~= m8);
    assert(b.subrange(off + META_ENTRY_SIZE, off + META_ENTRY_SIZE + dl) == rec.subrange(
        META_ENTRY_SIZE as int,
        META_ENTRY_SIZE + dl,
    ));
    assert(rec.subrange(META_ENTRY_SIZE as int, META_ENTRY_SIZE + dl) =~= m.data);
}

/// The owners block of the written file holds record `i`'s owner address
/// at the index the write pass assigned to it.
pub proof fn lemma_file_owner_addr(models: Seq<AccountRecordModel>, i: int)
    requires
        spec_batch_wf(models),
        spec_file_fits(models),
        0 <= i < models.len(),
    ensures
        spec_owner_addr_at(spec_file_bytes(models), spec_owner_index(models, i)) == models[
            i
        ].owner,
        ADDRESS_SIZE * spec_owner_index(models, i) + ADDRESS_SIZE <= ADDRESS_SIZE * spec_owners(
            models,
        ).len(),
{
    lemma_auto_spec_u64_to_from_le_bytes();
    lemma_auto_spec_u16_to_from_le_bytes();
    lemma_footer_fields(models);
    lemma_owners_wf(models);
    lemma_owners_bytes_len(spec_owners(models));
    lemma_index_block_len(models);
    lemma_owner_index_props(models, i);
    let d = spec_data_block(models);
    let w = spec_owners_bytes(spec_owners(models));
    let x = spec_index_block(models);
    let b = spec_file_bytes(models);
    let t = spec_footer_bytes(models) + spec_u64_to_le_bytes(FOOTER_MAGIC);
    assert(t.len() == TRAILER_SIZE);
    let rest = x + t;
    assert(b =~= (d + w) + rest);
    let idx = spec_owner_index(models, i);
    assert(idx < spec_owners(models).len());
    let lo = d.len() + ADDRESS_SIZE * idx;
    assert(lo + ADDRESS_SIZE <= (d + w).len()) by {
        assert(ADDRESS_SIZE * idx + ADDRESS_SIZE <= ADDRESS_SIZE * spec_owners(models).len())
            by (nonlinear_arith)
            requires
                idx < spec_owners(models).len(),
        ;
    }
    lemma_concat_subrange_left(d + w, rest, lo, lo + ADDRESS_SIZE);
    lemma_concat_subrange_right(d, w, lo, lo + ADDRESS_SIZE);
    lemma_owners_bytes_at(spec_owners(models), idx);
    assert(spec_owners_offset_of(b) as int == d.len());
}

/// The round trip: the byte image written for a well-formed batch is a
/// well-formed file, its record count is the batch's length, its total size
/// is the blocks plus the trailer, and every position decodes to exactly
/// the record written there.
pub proof fn lemma_round_trip(models: Seq<AccountRecordModel>)
    requires
        spec_batch_wf(models),
        spec_file_fits(models),
    ensures
        spec_file_wf(spec_file_bytes(models)),
        spec_file_bytes(models).len() == spec_total_len(models),
        spec_record_count_of(spec_file_bytes(models)) as int == models.len(),
        forall|i: int|
            0 <= i < models.len() ==> spec_record_at(spec_file_bytes(models), i) == models[i],
{
    lemma_footer_fields(models);
    let b = spec_file_bytes(models);
    lemma_record_offset_ends(models);
    if models.len() == 0 {
        assert(spec_owners(models).len() == 0);
    }
    assert forall|i: int| 0 <= i < models.len() implies spec_entry_wf(b, i) by {
        lemma_file_index_entry(models, i);
        lemma_file_meta_fields(models, i);
        lemma_file_owner_addr(models, i);
        lemma_record_offset_step(models, i);
        lemma_record_offset_monotonic(models, i + 1, models.len() as int);
        if i > 0 {
            lemma_file_index_entry(models, i - 1);
            lemma_file_meta_fields(models, i - 1);
            lemma_record_offset_step(models, i - 1);
        }
        if i == models.len() - 1 {
            assert(spec_record_offset(models, i) + META_ENTRY_SIZE + models[i].data.len()
                == spec_data_block(models).len());
        }
    }
    assert(spec_file_wf(b));
    assert forall|i: int| 0 <= i < models.len() implies spec_record_at(b, i) == models[i] by {
        lemma_file_index_entry(models, i);
        lemma_file_meta_fields(models, i);
        lemma_file_owner_addr(models, i);
        let m = spec_record_at(b, i);
        assert(m.executable == models[i].executable);
        assert(m.hash == models[i].hash) by {
            if models[i].hash is Some {
                assert(spec_hash_flag_of(b, i) == 1);
            } else {
                assert(spec_hash_flag_of(b, i) == 0);
            }
        }
        assert(m =~= models[i]);
    }
}

} // verus!
