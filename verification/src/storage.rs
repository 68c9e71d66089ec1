//! The storage handle: binds a path to either a not-yet-written state or
//! a sealed, read-only state.
//!
//! The transition is one-way and happens at most once per handle: the
//! first successful write installs a reader over the just-written byte
//! image and the handle is permanently read-only afterwards.  Every later
//! write attempt fails without touching anything.  Filesystem concerns —
//! persisting the byte image, reading it back, removing the backing file
//! when the handle dies — belong to the unverified shell around this
//! library, which hands byte images in and out as plain values.

use crate::error::TieredStorageError;
use crate::format::{spec_hot_format, TieredStorageFormat};
use crate::layout::{spec_file_bytes, spec_file_wf, spec_record_at};
use crate::proofs::{lemma_file_len, lemma_round_trip, spec_total_len};
use crate::reader::TieredStorageReader;
use crate::record::AccountRecord;
use crate::writer::{
    spec_batch_encodable, spec_models, write_batch, StoredAccountInfo,
};
use crate::layout::spec_record_offset;
use crate::format::META_ENTRY_SIZE;
use vstd::prelude::*;

verus! {

/// A write-once handle over one storage file.
pub struct TieredStorage {
    path: String,
    reader: Option<TieredStorageReader>,
}

impl TieredStorage {
    /// The path this handle is bound to.
    pub closed spec fn spec_path(&self) -> Seq<char> {
        self.path@
    }

    /// The installed reader, absent until the handle is sealed.
    pub closed spec fn spec_reader(&self) -> Option<TieredStorageReader> {
        self.reader
    }

    /// Whether the handle is sealed: a reader has been installed and no
    /// further write will ever succeed.
    pub open spec fn spec_is_read_only(&self) -> bool {
        self.spec_reader() is Some
    }

    /// Creates a writable handle bound to `path`.  No file exists yet and
    /// nothing is read or written until the write entry point is called.
    pub fn new_writable(path: String) -> (r: TieredStorage)
        ensures
            r.spec_path() == path@,
            !r.spec_is_read_only(),
    {
        TieredStorage { path, reader: None }
    }

    /// Opens the byte image of an existing sealed file, validating it.
    /// Succeeds, already sealed, if and only if the image is well formed.
    pub fn new_readonly(path: String, bytes: Vec<u8>) -> (r: Result<
        TieredStorage,
        TieredStorageError,
    >)
        ensures
            r is Ok <==> spec_file_wf(bytes@),
            r matches Ok(s) ==> s.spec_path() == path@ && s.spec_is_read_only() && (
            s.spec_reader() matches Some(rd) && rd.spec_bytes() == bytes@),
    {
        match TieredStorageReader::new_from_bytes(bytes) {
            Ok(rd) => Ok(TieredStorage { path, reader: Some(rd) }),
            Err(e) => Err(e),
        }
    }

    /// The path this handle is bound to.
    pub fn path(&self) -> (r: &String)
        ensures
            r@ == self.spec_path(),
    {
        &self.path
    }

    /// The installed reader, or nothing while the handle is writable.
    pub fn reader(&self) -> (r: Option<&TieredStorageReader>)
        ensures
            r is Some <==> self.spec_is_read_only(),
            r matches Some(rd) ==> self.spec_reader() == Some(*rd),
    {
        self.reader.as_ref()
    }

    /// Whether the handle is sealed.
    pub fn is_read_only(&self) -> (r: bool)
        ensures
            r == self.spec_is_read_only(),
    {
        self.reader.is_some()
    }

    /// The size in bytes of the underlying file image: zero while nothing
    /// has been written, the sealed image's length afterwards.  Never an
    /// error: a file that does not exist yet counts as size zero.
    pub fn file_size(&self) -> (r: Result<u64, TieredStorageError>)
        ensures
            r matches Ok(n) && n as int == (match self.spec_reader() {
                Some(rd) => rd.spec_bytes().len() as int,
                None => 0int,
            }),
    {
        match &self.reader {
            Some(rd) => Ok(rd.file_bytes().len() as u64),
            None => Ok(0),
        }
    }

    /// Writes the batch from `skip` onward into this storage, in the
    /// given format, sealing the handle.
    ///
    /// This succeeds at most once per handle.  On a sealed handle it
    /// always fails with the read-only error, carrying this handle's
    /// path, and changes nothing — whether or not the earlier call was
    /// this one.  An unrecognized format is rejected before any bytes are
    /// produced.  On success the handle holds a reader over exactly the
    /// encoded file image, whose records are the written batch, and the
    /// returned placements give each written record's offset and encoded
    /// size in input order.
    pub fn write_accounts(
        &mut self,
        batch: &Vec<AccountRecord>,
        skip: usize,
        format: &TieredStorageFormat,
    ) -> (r: Result<Vec<StoredAccountInfo>, TieredStorageError>)
        requires
            spec_batch_encodable(batch@),
        ensures
            old(self).spec_is_read_only() ==> (r matches Err(e) && (
            e matches TieredStorageError::AttemptToUpdateReadOnly(p) && p@ == old(
                self,
            ).spec_path()) && *final(self) == *old(self)),
            !old(self).spec_is_read_only() && *format != spec_hot_format() ==> (r matches Err(e)
                && (e matches TieredStorageError::UnknownFormat(p) && p@ == old(self).spec_path())
                && *final(self) == *old(self)),
            !old(self).spec_is_read_only() && *format == spec_hot_format() ==> (r matches Ok(
                infos,
            ) && {
                let models = spec_models(batch@, skip as int);
                &&& final(self).spec_is_read_only()
                &&& final(self).spec_path() == old(self).spec_path()
                &&& (final(self).spec_reader() matches Some(rd) && rd.spec_bytes()
                    == spec_file_bytes(models) && rd@ == models)
                &&& infos@.len() == models.len()
                &&& (forall|j: int|
                    0 <= j < models.len() ==> (#[trigger] infos@[j]).offset
                        == spec_record_offset(models, j) && infos@[j].size == META_ENTRY_SIZE
                        + models[j].data.len())
            }),
    {
        if self.is_read_only() {
            return Err(TieredStorageError::AttemptToUpdateReadOnly(self.path.clone()));
        }
        if !(*format == crate::format::hot_format()) {
            return Err(TieredStorageError::UnknownFormat(self.path.clone()));
        }
        let (bytes, infos) = write_batch(batch, skip);
        let total = bytes.len();
        let ghost models = spec_models(batch@, skip as int);
        proof {
            lemma_file_len(models);
            assert(bytes@.len() == total);
            assert(spec_total_len(models) <= u64::MAX);
            lemma_round_trip(models);
        }
        match TieredStorageReader::new_from_bytes(bytes) {
            Ok(rd) => {
                proof {
                    assert(rd@.len() == models.len());
                    assert forall|i: int| 0 <= i < models.len() implies rd@[i] == models[i] by {
                        assert(rd@[i] == spec_record_at(spec_file_bytes(models), i));
                    }
                    assert(rd@ =~= models);
                }
                self.reader = Some(rd);
                Ok(infos)
            },
            Err(e) => {
                proof {
                    assert(false);
                }
                Err(e)
            },
        }
    }
}

} // verus!
