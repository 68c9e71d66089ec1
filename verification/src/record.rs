//! Account records and their mathematical models.
//!
//! A record is what one write-pass entry stores: an address, a balance, an
//! owner address, payload bytes, an executable flag, an optional content
//! hash (supplied by the caller, never computed here), and a write-ordering
//! version.  The model of a record is the same data over `Seq<u8>`, which
//! is what every contract in this crate speaks of.

use crate::format::{ADDRESS_SIZE, HASH_SIZE};
use vstd::prelude::*;

verus! {

/// A 32-byte account address.
#[derive(Debug)]
pub struct Address {
    bytes: Vec<u8>,
}

impl View for Address {
    type V = Seq<u8>;

    closed spec fn view(&self) -> Seq<u8> {
        self.bytes@
    }
}

impl Address {
    /// A valid address holds exactly [`ADDRESS_SIZE`] bytes.
    pub open spec fn wf(&self) -> bool {
        self@.len() == ADDRESS_SIZE
    }

    /// Wraps the given bytes as an address; rejects any length other than
    /// [`ADDRESS_SIZE`].
    pub fn new(bytes: Vec<u8>) -> (r: Option<Address>)
        ensures
            bytes@.len() == ADDRESS_SIZE ==> (r matches Some(a) && a@ == bytes@ && a.wf()),
            bytes@.len() != ADDRESS_SIZE ==> r is None,
    {
        if bytes.len() == ADDRESS_SIZE {
            Some(Address { bytes })
        } else {
            None
        }
    }

    /// The address bytes.
    pub fn bytes(&self) -> (r: &Vec<u8>)
        ensures
            r@ == self@,
    {
        &self.bytes
    }

    /// Whether two addresses hold the same bytes.
    pub fn equals(&self, other: &Address) -> (r: bool)
        ensures
            r == (self@ == other@),
    {
        bytes_equal(&self.bytes, &other.bytes)
    }
}

impl Clone for Address {
    fn clone(&self) -> (r: Self)
        ensures
            r@ == self@,
    {
        Address { bytes: clone_bytes(&self.bytes) }
    }
}

/// A 32-byte content hash, supplied by the caller already computed.
#[derive(Debug)]
pub struct AccountHash {
    bytes: Vec<u8>,
}

impl View for AccountHash {
    type V = Seq<u8>;

    closed spec fn view(&self) -> Seq<u8> {
        self.bytes@
    }
}

impl AccountHash {
    /// A valid hash holds exactly [`HASH_SIZE`] bytes.
    pub open spec fn wf(&self) -> bool {
        self@.len() == HASH_SIZE
    }

    /// Wraps the given bytes as a hash; rejects any length other than
    /// [`HASH_SIZE`].
    pub fn new(bytes: Vec<u8>) -> (r: Option<AccountHash>)
        ensures
            bytes@.len() == HASH_SIZE ==> (r matches Some(h) && h@ == bytes@ && h.wf()),
            bytes@.len() != HASH_SIZE ==> r is None,
    {
        if bytes.len() == HASH_SIZE {
            Some(AccountHash { bytes })
        } else {
            None
        }
    }

    /// The hash bytes.
    pub fn bytes(&self) -> (r: &Vec<u8>)
        ensures
            r@ == self@,
    {
        &self.bytes
    }
}

impl Clone for AccountHash {
    fn clone(&self) -> (r: Self)
        ensures
            r@ == self@,
    {
        AccountHash { bytes: clone_bytes(&self.bytes) }
    }
}

/// One entry of a write batch, and also what a reader decodes back out.
#[derive(Debug)]
pub struct AccountRecord {
    pub address: Address,
    pub lamports: u64,
    pub owner: Address,
    pub data: Vec<u8>,
    pub executable: bool,
    pub hash: Option<AccountHash>,
    pub write_version: u64,
}

/// The mathematical model of a record: the same fields over `Seq<u8>`.
#[verifier::ext_equal]
pub struct AccountRecordModel {
    pub address: Seq<u8>,
    pub lamports: u64,
    pub owner: Seq<u8>,
    pub data: Seq<u8>,
    pub executable: bool,
    pub hash: Option<Seq<u8>>,
    pub write_version: u64,
}

impl View for AccountRecord {
    type V = AccountRecordModel;

    open spec fn view(&self) -> AccountRecordModel {
        AccountRecordModel {
            address: self.address@,
            lamports: self.lamports,
            owner: self.owner@,
            data: self.data@,
            executable: self.executable,
            hash: match self.hash {
                Some(h) => Some(h@),
                None => None,
            },
            write_version: self.write_version,
        }
    }
}

impl AccountRecordModel {
    /// A valid model has 32-byte address, owner and (if present) hash, and
    /// a payload whose length fits the 8-byte field that stores it.
    pub open spec fn wf(&self) -> bool {
        &&& self.address.len() == ADDRESS_SIZE
        &&& self.owner.len() == ADDRESS_SIZE
        &&& (self.hash matches Some(h) ==> h.len() == HASH_SIZE)
        &&& self.data.len() <= u64::MAX
    }
}

impl AccountRecord {
    /// A valid record is one whose model is valid.
    pub open spec fn wf(&self) -> bool {
        self@.wf()
    }
}

/// Whether two byte vectors hold the same bytes.
pub fn bytes_equal(a: &Vec<u8>, b: &Vec<u8>) -> (r: bool)
    ensures
        r == (a@ == b@),
{
    if a.len() != b.len() {
        assert(a@ != b@);
        return false;
    }
    let n = a.len();
    let mut i: usize = 0;
    while i < n
        invariant
            n == a@.len(),
            n == b@.len(),
            i <= n,
            forall|j: int| 0 <= j < i ==> a@[j] == b@[j],
        decreases n - i,
    {
        if a[i] != b[i] {
            assert(a@ != b@);
            return false;
        }
        i += 1;
    }
    assert(a@ =~= b@);
    true
}

/// Copies a byte vector.
pub fn clone_bytes(a: &Vec<u8>) -> (r: Vec<u8>)
    ensures
        r@ == a@,
{
    let mut out: Vec<u8> = Vec::new();
    let n = a.len();
    let mut i: usize = 0;
    while i < n
        invariant
            n == a@.len(),
            i <= n,
            out@ == a@.take(i as int),
        decreases n - i,
    {
        out.push(a[i]);
        assert(out@ =~= a@.take(i + 1));
        i += 1;
    }
    assert(a@.take(n as int) =~= a@);
    out
}

} // verus!
