//! The reader: validates a sealed file and decodes records out of it.
//!
//! Opening validates the trailer and then every index entry and metadata
//! record, so that once a reader exists, every lookup is total: no read
//! can go out of bounds and no position below the record count can fail.
//! A reader never changes after construction, so any number of
//! traversals can run over it independently.

use crate::error::TieredStorageError;
use crate::footer::{read_u64_at, spec_footer_matches, TieredStorageFooter};
use crate::format::{ADDRESS_SIZE, INDEX_ENTRY_SIZE, META_ENTRY_SIZE, TRAILER_SIZE};
use crate::layout::{
    spec_data_len_of, spec_entry_wf, spec_exec_byte_of, spec_file_wf, spec_hash_flag_of,
    spec_offset_of, spec_owner_addr_at, spec_owner_index_of, spec_owners_length_of,
    spec_owners_offset_of, spec_record_at, spec_record_count_of, spec_slot_of,
};
use crate::record::{AccountHash, AccountRecord, AccountRecordModel, Address};
use vstd::prelude::*;
use vstd::slice::{slice_subrange, slice_to_vec};

verus! {

/// Copies the bytes of `[start, end)` out of `bytes`.
fn copy_range(bytes: &Vec<u8>, start: usize, end: usize) -> (r: Vec<u8>)
    requires
        start <= end <= bytes@.len(),
    ensures
        r@ == bytes@.subrange(start as int, end as int),
{
    let n = bytes.len();
    assert(end <= n);
    let s = slice_subrange(bytes.as_slice(), start, end);
    slice_to_vec(s)
}

/// A validated, sealed storage file held in memory, offering counting and
/// random access by logical position.
pub struct TieredStorageReader {
    bytes: Vec<u8>,
    footer: TieredStorageFooter,
}

impl View for TieredStorageReader {
    type V = Seq<AccountRecordModel>;

    /// The sequence of records the file holds, in logical order.
    closed spec fn view(&self) -> Seq<AccountRecordModel> {
        Seq::new(
            spec_record_count_of(self.bytes@) as nat,
            |i: int| spec_record_at(self.bytes@, i),
        )
    }
}

impl TieredStorageReader {
    /// A reader only ever wraps a validated file whose decoded footer it
    /// carries.
    #[verifier::type_invariant]
    closed spec fn inv(self) -> bool {
        &&& spec_file_wf(self.bytes@)
        &&& spec_footer_matches(self.footer, self.bytes@)
    }

    /// The byte image of the file this reader exposes.
    pub closed spec fn spec_bytes(&self) -> Seq<u8> {
        self.bytes@
    }

    /// Validates `bytes` as a sealed storage file.  Succeeds if and only
    /// if the file is well formed; the file is never exposed for reads
    /// otherwise.
    pub fn new_from_bytes(bytes: Vec<u8>) -> (r: Result<TieredStorageReader, TieredStorageError>)
        ensures
            r is Ok <==> spec_file_wf(bytes@),
            r matches Ok(rd) ==> rd.spec_bytes() == bytes@ && rd@.len() == spec_record_count_of(
                bytes@,
            ) && (forall|i: int| 0 <= i < rd@.len() ==> rd@[i] == spec_record_at(bytes@, i)),
    {
        let footer = match TieredStorageFooter::parse(&bytes) {
            Ok(f) => f,
            Err(e) => {
                return Err(e);
            },
        };
        let l = bytes.len();
        let owners_off: u64 = footer.owners_block_offset;
        let owners_len: u64 = footer.owners_block_length;
        let index_off: usize = footer.index_block_offset as usize;
        let count: usize = footer.record_count as usize;
        proof {
            assert(INDEX_ENTRY_SIZE * footer.record_count as int == footer.index_block_length
                as int);
            assert(footer.record_count as int <= footer.index_block_length as int);
            assert(count == footer.record_count as int);
            assert(index_off == footer.index_block_offset as int);
        }
        let mut cursor: u64 = 0;
        let mut i: usize = 0;
        while i < count
            invariant
                crate::layout::spec_header_wf(bytes@),
                spec_footer_matches(footer, bytes@),
                owners_off == footer.owners_block_offset,
                owners_len == footer.owners_block_length,
                index_off == footer.index_block_offset as int,
                count == footer.record_count as int,
                l == bytes@.len(),
                i <= count,
                forall|j: int| 0 <= j < i ==> spec_entry_wf(bytes@, j),
                cursor as int == if i == 0 {
                    0int
                } else {
                    spec_offset_of(bytes@, i - 1) as int + META_ENTRY_SIZE + spec_data_len_of(
                        bytes@,
                        i - 1,
                    ) as int
                },
                cursor <= owners_off,
            decreases count - i,
        {
            proof {
                assert(INDEX_ENTRY_SIZE * (i + 1) <= INDEX_ENTRY_SIZE * count as int);
                assert(INDEX_ENTRY_SIZE * count as int == footer.index_block_length as int);
            }
            let e_off: usize = index_off + INDEX_ENTRY_SIZE * i;
            let slot = read_u64_at(&bytes, e_off);
            let off = read_u64_at(&bytes, e_off + 8);
            proof {
                assert(slot == spec_slot_of(bytes@, i as int));
                assert(off == spec_offset_of(bytes@, i as int));
            }
            if slot != i as u64 {
                proof {
                    assert(!spec_entry_wf(bytes@, i as int));
                    assert(!spec_file_wf(bytes@));
                }
                return Err(
                    TieredStorageError::InvalidFooter(("index slot out of order").to_owned()),
                );
            }
            if off != cursor {
                proof {
                    assert(!spec_entry_wf(bytes@, i as int));
                    assert(!spec_file_wf(bytes@));
                }
                return Err(
                    TieredStorageError::InvalidFooter(("records are not contiguous").to_owned()),
                );
            }
            if owners_off < off || owners_off - off < META_ENTRY_SIZE as u64 {
                proof {
                    assert(!spec_entry_wf(bytes@, i as int));
                    assert(!spec_file_wf(bytes@));
                }
                return Err(
                    TieredStorageError::InvalidFooter(
                        ("record metadata out of range").to_owned(),
                    ),
                );
            }
            let off_u: usize = off as usize;
            let dl = read_u64_at(&bytes, off_u + 48);
            proof {
                assert(dl == spec_data_len_of(bytes@, i as int));
            }
            if owners_off - off - (META_ENTRY_SIZE as u64) < dl {
                proof {
                    assert(!spec_entry_wf(bytes@, i as int));
                    assert(!spec_file_wf(bytes@));
                }
                return Err(
                    TieredStorageError::InvalidFooter(("record payload out of range").to_owned()),
                );
            }
            let oi = read_u64_at(&bytes, off_u + 40);
            proof {
                assert(oi == spec_owner_index_of(bytes@, i as int));
                assert(owners_len as int == ADDRESS_SIZE * (owners_len as int / ADDRESS_SIZE as
                int));
            }
            if oi >= owners_len / (ADDRESS_SIZE as u64) {
                proof {
                    let q = owners_len as int / ADDRESS_SIZE as int;
                    assert(ADDRESS_SIZE * q <= ADDRESS_SIZE * oi as int) by (nonlinear_arith)
                        requires
                            q <= oi as int,
                            ADDRESS_SIZE > 0,
                    ;
                    assert(!spec_entry_wf(bytes@, i as int));
                    assert(!spec_file_wf(bytes@));
                }
                return Err(
                    TieredStorageError::InvalidFooter(("owner index out of range").to_owned()),
                );
            }
            proof {
                let q = owners_len as int / ADDRESS_SIZE as int;
                assert(ADDRESS_SIZE * (oi as int + 1) <= ADDRESS_SIZE * q) by (nonlinear_arith)
                    requires
                        oi as int + 1 <= q,
                        ADDRESS_SIZE > 0,
                ;
            }
            let eb = bytes[off_u + 56];
            if eb > 1 {
                proof {
                    assert(!spec_entry_wf(bytes@, i as int));
                    assert(!spec_file_wf(bytes@));
                }
                return Err(
                    TieredStorageError::InvalidFooter(("bad executable flag byte").to_owned()),
                );
            }
            let hf = bytes[off_u + 57];
            if hf > 1 {
                proof {
                    assert(!spec_entry_wf(bytes@, i as int));
                    assert(!spec_file_wf(bytes@));
                }
                return Err(TieredStorageError::InvalidFooter(("bad hash flag byte").to_owned()));
            }
            let next: u64 = off + META_ENTRY_SIZE as u64 + dl;
            if i + 1 == count && next != owners_off {
                proof {
                    assert(!spec_entry_wf(bytes@, i as int));
                    assert(!spec_file_wf(bytes@));
                }
                return Err(
                    TieredStorageError::InvalidFooter(
                        ("last record does not end at owners block").to_owned(),
                    ),
                );
            }
            proof {
                assert(spec_entry_wf(bytes@, i as int));
            }
            cursor = next;
            i += 1;
        }
        proof {
            assert(spec_file_wf(bytes@));
        }
        Ok(TieredStorageReader { bytes, footer })
    }

    /// The number of records stored in the file.
    pub fn record_count(&self) -> (n: usize)
        ensures
            n == self@.len(),
    {
        let n = self.bytes.len();
        proof {
            use_type_invariant(self);
            assert(INDEX_ENTRY_SIZE * self.footer.record_count as int == self.footer
                .index_block_length as int);
            assert(self.footer.record_count as int <= self.footer.index_block_length as int);
            assert(self.footer.index_block_offset as int + self.footer.index_block_length as int
                == n - TRAILER_SIZE);
        }
        self.footer.record_count as usize
    }

    /// The decoded footer of the file.
    pub fn footer(&self) -> (r: &TieredStorageFooter)
        ensures
            spec_footer_matches(*r, self.spec_bytes()),
            r.record_count as int == self@.len(),
    {
        proof {
            use_type_invariant(self);
        }
        &self.footer
    }

    /// The complete byte image of the sealed file.
    pub fn file_bytes(&self) -> (r: &Vec<u8>)
        ensures
            r@ == self.spec_bytes(),
    {
        proof {
            use_type_invariant(self);
        }
        &self.bytes
    }

    /// The number of deduplicated owner addresses the file stores.
    pub fn owner_count(&self) -> (n: usize)
        ensures
            n as int == self.spec_owner_count(),
    {
        let n = self.bytes.len();
        proof {
            use_type_invariant(self);
            assert(spec_owners_offset_of(self.bytes@) as int + spec_owners_length_of(self.bytes@)
                as int <= n);
        }
        let ol: usize = self.footer.owners_block_length as usize;
        ol / ADDRESS_SIZE
    }

    /// How many owner addresses the file stores.
    pub open spec fn spec_owner_count(&self) -> int {
        spec_owners_length_of(self.spec_bytes()) as int / ADDRESS_SIZE as int
    }

    /// The owner address at position `index` of the owners table.  An
    /// out-of-range index is a caller bug, not a data-validation failure:
    /// validated data never produces one.
    pub fn owner_at(&self, index: usize) -> (r: Address)
        requires
            index < self.spec_owner_count(),
        ensures
            r@ == spec_owner_addr_at(self.spec_bytes(), index as int),
            r.wf(),
    {
        let n = self.bytes.len();
        proof {
            use_type_invariant(self);
            let b = self.bytes@;
            let ol = spec_owners_length_of(b) as int;
            let q = ol / ADDRESS_SIZE as int;
            assert(ol == ADDRESS_SIZE * q);
            assert(ADDRESS_SIZE * (index as int + 1) <= ADDRESS_SIZE * q) by (nonlinear_arith)
                requires
                    index as int + 1 <= q,
                    ADDRESS_SIZE > 0,
            ;
            assert(spec_owners_offset_of(b) as int + ol <= n);
            assert(self.footer.owners_block_offset as int + ADDRESS_SIZE * (index as int + 1)
                <= n);
        }
        let oo: usize = self.footer.owners_block_offset as usize;
        let lo: usize = oo + ADDRESS_SIZE * index;
        let bytes = copy_range(&self.bytes, lo, lo + ADDRESS_SIZE);
        match Address::new(bytes) {
            Some(a) => a,
            None => {
                proof {
                    assert(false);
                }
                vstd::pervasive::unreached()
            },
        }
    }

    /// Decodes the record at logical position `position`, returning it
    /// together with the position of the next record; yields the terminal
    /// result for any position at or past the record count, never an
    /// error.  Iteration from position zero visits every record once, and
    /// any returned position can resume it.
    pub fn get_record(&self, position: usize) -> (r: Option<(AccountRecord, usize)>)
        ensures
            position >= self@.len() ==> r is None,
            position < self@.len() ==> (r matches Some(p) && p.0@ == self@[position as int]
                && p.0.wf() && p.1 == position + 1),
    {
        proof {
            use_type_invariant(self);
        }
        let count = self.record_count();
        if position >= count {
            return None;
        }
        let ghost b = self.bytes@;
        let n = self.bytes.len();
        proof {
            assert(spec_entry_wf(b, position as int));
            assert(INDEX_ENTRY_SIZE * (position + 1) <= INDEX_ENTRY_SIZE * count as int);
            assert(INDEX_ENTRY_SIZE * count as int == self.footer.index_block_length as int);
            assert(self.footer.index_block_offset as int + self.footer.index_block_length as int
                == n - TRAILER_SIZE);
            assert(spec_owners_offset_of(b) as int + spec_owners_length_of(b) as int <= n);
            assert(spec_offset_of(b, position as int) as int + META_ENTRY_SIZE + spec_data_len_of(
                b,
                position as int,
            ) as int <= spec_owners_offset_of(b) as int);
        }
        let index_off: usize = self.footer.index_block_offset as usize;
        let e_off: usize = index_off + INDEX_ENTRY_SIZE * position;
        let off64 = read_u64_at(&self.bytes, e_off + 8);
        proof {
            assert(off64 == spec_offset_of(b, position as int));
        }
        let off: usize = off64 as usize;
        let lamports = read_u64_at(&self.bytes, off + 32);
        let oi64 = read_u64_at(&self.bytes, off + 40);
        let dl64 = read_u64_at(&self.bytes, off + 48);
        let dl: usize = dl64 as usize;
        let eb = self.bytes[off + 56];
        let hf = self.bytes[off + 57];
        let wv = read_u64_at(&self.bytes, off + 90);
        let address_bytes = copy_range(&self.bytes, off, off + ADDRESS_SIZE);
        let address = match Address::new(address_bytes) {
            Some(a) => a,
            None => {
                proof {
                    assert(false);
                }
                vstd::pervasive::unreached()
            },
        };
        proof {
            let ol = spec_owners_length_of(b) as int;
            let q = ol / ADDRESS_SIZE as int;
            assert(ol == ADDRESS_SIZE * q);
            assert(ADDRESS_SIZE * oi64 as int + ADDRESS_SIZE <= ol);
            assert(oi64 as int + 1 <= q) by (nonlinear_arith)
                requires
                    ADDRESS_SIZE * (oi64 as int + 1) <= ADDRESS_SIZE * q,
                    ADDRESS_SIZE > 0,
            ;
            assert(spec_owners_offset_of(b) as int + ol <= b.len());
        }
        let owner = self.owner_at(oi64 as usize);
        let data = copy_range(&self.bytes, off + META_ENTRY_SIZE, off + META_ENTRY_SIZE + dl);
        let hash = if hf == 1 {
            let hash_bytes = copy_range(&self.bytes, off + 58, off + 90);
            match AccountHash::new(hash_bytes) {
                Some(h) => Some(h),
                None => {
                    proof {
                        assert(false);
                    }
                    vstd::pervasive::unreached()
                },
            }
        } else {
            None
        };
        let rec = AccountRecord {
            address,
            lamports,
            owner,
            data,
            executable: eb == 1,
            hash,
            write_version: wv,
        };
        proof {
            assert(spec_exec_byte_of(b, position as int) == eb);
            assert(spec_hash_flag_of(b, position as int) == hf);
            assert(rec@ =~= spec_record_at(b, position as int));
            assert(self@[position as int] == spec_record_at(b, position as int));
        }
        Some((rec, position + 1))
    }
}

} // verus!
