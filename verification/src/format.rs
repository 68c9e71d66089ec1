//! On-disk layout constants and format descriptors.
//!
//! A storage file is laid out as
//! `[data block][owners block][index block][footer][magic number]`.
//! All multi-byte integers are little-endian.  The footer is always found
//! by a fixed-size read from the end of the file, so no header is needed.

use vstd::prelude::*;

verus! {

/// Number of bytes in an account address.
pub const ADDRESS_SIZE: usize = 32;

/// Number of bytes in a record's content hash.
pub const HASH_SIZE: usize = 32;

/// Number of bytes of the fixed-size metadata portion of an encoded record:
/// address (32), balance (8), owner index (8), payload length (8),
/// executable flag (1), hash-present flag (1), hash (32), write version (8).
pub const META_ENTRY_SIZE: usize = 98;

/// Number of bytes of one index entry: slot (8) and record offset (8).
pub const INDEX_ENTRY_SIZE: usize = 16;

/// Number of bytes of the footer: meta-record size (8), four format
/// discriminants (2 each), owners-block offset and length (8 each),
/// index-block offset and length (8 each), record count (8).
pub const FOOTER_SIZE: usize = 56;

/// Number of bytes of the trailing magic number.
pub const MAGIC_SIZE: usize = 8;

/// Number of bytes of the whole trailer: footer plus magic number.  This is
/// also the exact size of a sealed file that holds zero records.
pub const TRAILER_SIZE: usize = FOOTER_SIZE + MAGIC_SIZE;

/// Fixed bit pattern closing every well-formed file.  It detects truncation
/// and corruption; it carries no version information.
pub const FOOTER_MAGIC: u64 = 0x7A3B5C1D9E0F2468;

/// Encoding of the fixed-size record metadata.
#[derive(Clone, Copy, Debug, PartialEq, Eq, Structural)]
pub enum AccountMetaFormat {
    Hot,
}

/// Encoding of the owners block.
#[derive(Clone, Copy, Debug, PartialEq, Eq, Structural)]
pub enum OwnersBlockFormat {
    AddressesOnly,
}

/// Encoding of the index block.
#[derive(Clone, Copy, Debug, PartialEq, Eq, Structural)]
pub enum IndexBlockFormat {
    AddressesThenOffsets,
}

/// Encoding of the account data block.
#[derive(Clone, Copy, Debug, PartialEq, Eq, Structural)]
pub enum AccountBlockFormat {
    AlignedRaw,
}

impl AccountMetaFormat {
    /// Discriminant stored in the footer for this encoding.
    pub open spec fn spec_code(self) -> u16 {
        match self {
            AccountMetaFormat::Hot => 1,
        }
    }

    pub fn code(self) -> (r: u16)
        ensures
            r == self.spec_code(),
    {
        match self {
            AccountMetaFormat::Hot => 1,
        }
    }

    /// The encoding a footer discriminant stands for, if any.
    pub open spec fn spec_from_code(code: u16) -> Option<AccountMetaFormat> {
        if code == 1 {
            Some(AccountMetaFormat::Hot)
        } else {
            None
        }
    }

    pub fn from_code(code: u16) -> (r: Option<AccountMetaFormat>)
        ensures
            r == AccountMetaFormat::spec_from_code(code),
    {
        if code == 1 {
            Some(AccountMetaFormat::Hot)
        } else {
            None
        }
    }
}

impl OwnersBlockFormat {
    /// Discriminant stored in the footer for this encoding.
    pub open spec fn spec_code(self) -> u16 {
        match self {
            OwnersBlockFormat::AddressesOnly => 1,
        }
    }

    pub fn code(self) -> (r: u16)
        ensures
            r == self.spec_code(),
    {
        match self {
            OwnersBlockFormat::AddressesOnly => 1,
        }
    }

    /// The encoding a footer discriminant stands for, if any.
    pub open spec fn spec_from_code(code: u16) -> Option<OwnersBlockFormat> {
        if code == 1 {
            Some(OwnersBlockFormat::AddressesOnly)
        } else {
            None
        }
    }

    pub fn from_code(code: u16) -> (r: Option<OwnersBlockFormat>)
        ensures
            r == OwnersBlockFormat::spec_from_code(code),
    {
        if code == 1 {
            Some(OwnersBlockFormat::AddressesOnly)
        } else {
            None
        }
    }
}

impl IndexBlockFormat {
    /// Discriminant stored in the footer for this encoding.
    pub open spec fn spec_code(self) -> u16 {
        match self {
            IndexBlockFormat::AddressesThenOffsets => 1,
        }
    }

    pub fn code(self) -> (r: u16)
        ensures
            r == self.spec_code(),
    {
        match self {
            IndexBlockFormat::AddressesThenOffsets => 1,
        }
    }

    /// The encoding a footer discriminant stands for, if any.
    pub open spec fn spec_from_code(code: u16) -> Option<IndexBlockFormat> {
        if code == 1 {
            Some(IndexBlockFormat::AddressesThenOffsets)
        } else {
            None
        }
    }

    pub fn from_code(code: u16) -> (r: Option<IndexBlockFormat>)
        ensures
            r == IndexBlockFormat::spec_from_code(code),
    {
        if code == 1 {
            Some(IndexBlockFormat::AddressesThenOffsets)
        } else {
            None
        }
    }
}

impl AccountBlockFormat {
    /// Discriminant stored in the footer for this encoding.
    pub open spec fn spec_code(self) -> u16 {
        match self {
            AccountBlockFormat::AlignedRaw => 1,
        }
    }

    pub fn code(self) -> (r: u16)
        ensures
            r == self.spec_code(),
    {
        match self {
            AccountBlockFormat::AlignedRaw => 1,
        }
    }

    /// The encoding a footer discriminant stands for, if any.
    pub open spec fn spec_from_code(code: u16) -> Option<AccountBlockFormat> {
        if code == 1 {
            Some(AccountBlockFormat::AlignedRaw)
        } else {
            None
        }
    }

    pub fn from_code(code: u16) -> (r: Option<AccountBlockFormat>)
        ensures
            r == AccountBlockFormat::spec_from_code(code),
    {
        if code == 1 {
            Some(AccountBlockFormat::AlignedRaw)
        } else {
            None
        }
    }
}

/// The formats of all building blocks of a storage file, chosen by the
/// caller at write time.  A write is rejected before any bytes are produced
/// unless the descriptor matches one the reader understands.
#[derive(Clone, Copy, Debug, PartialEq, Eq, Structural)]
pub struct TieredStorageFormat {
    pub meta_entry_size: usize,
    pub account_meta_format: AccountMetaFormat,
    pub owners_block_format: OwnersBlockFormat,
    pub index_block_format: IndexBlockFormat,
    pub account_block_format: AccountBlockFormat,
}

/// The one format descriptor this engine currently reads and writes.
pub open spec fn spec_hot_format() -> TieredStorageFormat {
    TieredStorageFormat {
        meta_entry_size: META_ENTRY_SIZE,
        account_meta_format: AccountMetaFormat::Hot,
        owners_block_format: OwnersBlockFormat::AddressesOnly,
        index_block_format: IndexBlockFormat::AddressesThenOffsets,
        account_block_format: AccountBlockFormat::AlignedRaw,
    }
}

/// Returns the format descriptor for the hot encoding.
pub fn hot_format() -> (r: TieredStorageFormat)
    ensures
        r == spec_hot_format(),
{
    TieredStorageFormat {
        meta_entry_size: META_ENTRY_SIZE,
        account_meta_format: AccountMetaFormat::Hot,
        owners_block_format: OwnersBlockFormat::AddressesOnly,
        index_block_format: IndexBlockFormat::AddressesThenOffsets,
        account_block_format: AccountBlockFormat::AlignedRaw,
    }
}

} // verus!
