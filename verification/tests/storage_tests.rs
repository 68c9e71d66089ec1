use std::collections::HashMap;
use std::collections::HashSet;

use tiered_storage::error::TieredStorageError;
use tiered_storage::format::hot_format;
use tiered_storage::format::TieredStorageFormat;
use tiered_storage::format::FOOTER_SIZE;
use tiered_storage::format::MAGIC_SIZE;
use tiered_storage::format::META_ENTRY_SIZE;
use tiered_storage::format::TRAILER_SIZE;
use tiered_storage::record::AccountHash;
use tiered_storage::record::AccountRecord;
use tiered_storage::record::Address;
use tiered_storage::storage::TieredStorage;

/// A deterministic, unique 32-byte address derived from a counter.
fn unique_address(counter: u64) -> Address {
    let mut bytes = vec![0u8; 32];
    bytes[..8].copy_from_slice(&counter.to_le_bytes());
    bytes[8] = 0xA5;
    Address::new(bytes).expect("32 bytes")
}

/// A deterministic, unique 32-byte hash derived from a counter.
fn unique_hash(counter: u64) -> AccountHash {
    let mut bytes = vec![0u8; 32];
    bytes[..8].copy_from_slice(&counter.to_le_bytes());
    bytes[8] = 0x5A;
    AccountHash::new(bytes).expect("32 bytes")
}

/// Mirrors the account construction of the write tests: payload of `seed`
/// bytes each holding `seed as u8`, balance `seed`, executable when the
/// seed is odd, and fresh unique address and owner.
fn create_account(seed: u64, counter: &mut u64) -> AccountRecord {
    *counter += 2;
    AccountRecord {
        address: unique_address(*counter),
        lamports: seed,
        owner: unique_address(*counter + 1),
        data: vec![seed as u8; seed as usize],
        executable: seed % 2 > 0,
        hash: Some(unique_hash(*counter)),
        write_version: 0,
    }
}

/// Invokes the write entry point with an empty batch, so the storage
/// persists only the non-account blocks: footer and magic number.
fn write_zero_accounts(tiered_storage: &mut TieredStorage, expect_already_sealed: bool) {
    let batch: Vec<AccountRecord> = Vec::new();
    let result = tiered_storage.write_accounts(&batch, 0, &hot_format());
    if expect_already_sealed {
        assert!(matches!(
            result,
            Err(TieredStorageError::AttemptToUpdateReadOnly(_))
        ));
    } else {
        assert_eq!(result.unwrap().len(), 0);
    }
    assert!(tiered_storage.is_read_only());
    assert_eq!(tiered_storage.file_size().unwrap() as usize, TRAILER_SIZE);
}

#[test]
fn test_new_meta_file_only() {
    let path = String::from("test_new_meta_file_only");
    let bytes;
    {
        let mut tiered_storage = TieredStorage::new_writable(path.clone());

        assert!(!tiered_storage.is_read_only());
        assert_eq!(tiered_storage.path(), &path);
        assert_eq!(tiered_storage.file_size().unwrap(), 0);

        write_zero_accounts(&mut tiered_storage, false);
        bytes = tiered_storage.reader().unwrap().file_bytes().clone();
    }

    let tiered_storage_readonly = TieredStorage::new_readonly(path, bytes).unwrap();
    let reader = tiered_storage_readonly.reader().unwrap();
    let footer = reader.footer();
    assert!(tiered_storage_readonly.is_read_only());
    assert_eq!(reader.record_count(), 0);
    let hot = hot_format();
    assert_eq!(footer.account_meta_format, hot.account_meta_format);
    assert_eq!(footer.owners_block_format, hot.owners_block_format);
    assert_eq!(footer.index_block_format, hot.index_block_format);
    assert_eq!(footer.account_block_format, hot.account_block_format);
    assert_eq!(
        tiered_storage_readonly.file_size().unwrap() as usize,
        FOOTER_SIZE + MAGIC_SIZE
    );
}

#[test]
fn test_write_accounts_twice() {
    let path = String::from("test_write_accounts_twice");
    let mut tiered_storage = TieredStorage::new_writable(path.clone());
    write_zero_accounts(&mut tiered_storage, false);
    // Expect the read-only error: the write entry point succeeds at most
    // once per handle.
    write_zero_accounts(&mut tiered_storage, true);
    let batch: Vec<AccountRecord> = Vec::new();
    match tiered_storage.write_accounts(&batch, 0, &hot_format()) {
        Err(TieredStorageError::AttemptToUpdateReadOnly(p)) => assert_eq!(p, path),
        other => panic!("expected the read-only error, got {other:?}"),
    }
}

/// The helper for the write tests: writes records of the given payload
/// sizes, then reads everything back through the sequential primitive and
/// checks every field against the inputs.
fn do_test_write_accounts(path_suffix: &str, account_data_sizes: &[u64]) {
    let mut counter: u64 = 0;
    let batch: Vec<AccountRecord> = account_data_sizes
        .iter()
        .map(|size| create_account(*size, &mut counter))
        .collect();

    let mut tiered_storage = TieredStorage::new_writable(String::from(path_suffix));
    let _ = tiered_storage.write_accounts(&batch, 0, &hot_format());

    let reader = tiered_storage.reader().unwrap();
    let num_accounts = batch.len();
    assert_eq!(reader.record_count(), num_accounts);

    let mut expected_accounts_map = HashMap::new();
    for record in &batch {
        expected_accounts_map.insert(record.address.bytes().clone(), record);
    }

    let mut index_offset: usize = 0;
    let mut verified_accounts = HashSet::new();
    while let Some((stored_record, next)) = reader.get_record(index_offset) {
        let key = stored_record.address.bytes().clone();
        if let Some(expected) = expected_accounts_map.get(&key) {
            assert_eq!(stored_record.lamports, expected.lamports);
            assert_eq!(stored_record.data.len(), expected.data.len());
            assert_eq!(stored_record.data, expected.data);
            assert_eq!(stored_record.executable, expected.executable);
            assert_eq!(stored_record.owner.bytes(), expected.owner.bytes());
            assert_eq!(stored_record.write_version, expected.write_version);
            match (&stored_record.hash, &expected.hash) {
                (Some(actual), Some(wanted)) => assert_eq!(actual.bytes(), wanted.bytes()),
                (None, None) => {}
                _ => panic!("hash presence mismatch"),
            }
            verified_accounts.insert(key);
        }
        index_offset = next;
    }
    assert!(!verified_accounts.is_empty());
    assert_eq!(verified_accounts.len(), expected_accounts_map.len());
}

#[test]
fn test_write_accounts_small_accounts() {
    do_test_write_accounts(
        "test_write_accounts_small_accounts",
        &[1, 2, 3, 4, 5, 6, 7, 8, 9, 10],
    );
}

#[test]
fn test_write_accounts_one_max_len() {
    do_test_write_accounts("test_write_accounts_one_max_len", &[10 * 1024 * 1024]);
}

#[test]
fn test_write_accounts_mixed_size() {
    do_test_write_accounts(
        "test_write_accounts_mixed_size",
        &[
            1, 2, 3, 4, 5, 6, 7, 8, 9, 10, 1000, 2000, 3000, 4000, 9, 8, 7, 6, 5, 4, 3, 2, 1,
        ],
    );
}

#[test]
fn test_five_record_scenario() {
    // Payload sizes one through five: count, file size, order, addresses,
    // payloads, and the sealed-handle error with the handle's path.
    let path = String::from("test_five_record_scenario");
    let mut counter: u64 = 0;
    let sizes: [u64; 5] = [1, 2, 3, 4, 5];
    let batch: Vec<AccountRecord> = sizes
        .iter()
        .map(|size| create_account(*size, &mut counter))
        .collect();

    let mut tiered_storage = TieredStorage::new_writable(path.clone());
    let infos = tiered_storage
        .write_accounts(&batch, 0, &hot_format())
        .unwrap();

    assert_eq!(infos.len(), 5);
    let mut encoded_sum: usize = 0;
    for (i, info) in infos.iter().enumerate() {
        assert_eq!(info.offset, encoded_sum);
        assert_eq!(info.size, META_ENTRY_SIZE + sizes[i] as usize);
        encoded_sum += info.size;
    }

    let reader = tiered_storage.reader().unwrap();
    assert_eq!(reader.record_count(), 5);
    // Every record names a distinct owner here, so the owners block holds
    // five addresses and the index block five entries.
    assert_eq!(reader.owner_count(), 5);
    let expected_file_size = encoded_sum + 5 * 32 + 5 * 16 + TRAILER_SIZE;
    assert_eq!(
        tiered_storage.file_size().unwrap() as usize,
        expected_file_size
    );

    let mut position: usize = 0;
    for record in &batch {
        let (stored_record, next) = reader.get_record(position).unwrap();
        assert_eq!(stored_record.address.bytes(), record.address.bytes());
        assert_eq!(stored_record.data, record.data);
        position = next;
    }
    assert!(reader.get_record(position).is_none());

    match tiered_storage.write_accounts(&batch, 0, &hot_format()) {
        Err(TieredStorageError::AttemptToUpdateReadOnly(p)) => assert_eq!(p, path),
        other => panic!("expected the read-only error, got {other:?}"),
    }
}

#[test]
fn test_get_record_past_count_is_terminal() {
    let mut counter: u64 = 0;
    let batch: Vec<AccountRecord> = vec![create_account(3, &mut counter)];
    let mut tiered_storage = TieredStorage::new_writable(String::from("past_count"));
    tiered_storage
        .write_accounts(&batch, 0, &hot_format())
        .unwrap();
    let reader = tiered_storage.reader().unwrap();
    assert!(reader.get_record(1).is_none());
    assert!(reader.get_record(2).is_none());
    assert!(reader.get_record(usize::MAX).is_none());
}

#[test]
fn test_owner_deduplication() {
    let shared_owner = unique_address(777);
    let mut batch: Vec<AccountRecord> = Vec::new();
    for i in 0..4u64 {
        batch.push(AccountRecord {
            address: unique_address(1000 + i),
            lamports: i,
            owner: Address::new(shared_owner.bytes().clone()).unwrap(),
            data: vec![i as u8; i as usize],
            executable: false,
            hash: None,
            write_version: i,
        });
    }
    let mut tiered_storage = TieredStorage::new_writable(String::from("dedup"));
    tiered_storage
        .write_accounts(&batch, 0, &hot_format())
        .unwrap();
    let reader = tiered_storage.reader().unwrap();
    assert_eq!(reader.record_count(), 4);
    assert_eq!(reader.owner_count(), 1);
    assert_eq!(reader.owner_at(0).bytes(), shared_owner.bytes());
    let (first, _) = reader.get_record(0).unwrap();
    assert_eq!(first.owner.bytes(), shared_owner.bytes());
    assert!(first.hash.is_none());
}

#[test]
fn test_write_accounts_skip() {
    let mut counter: u64 = 0;
    let batch: Vec<AccountRecord> = [2u64, 3, 4]
        .iter()
        .map(|size| create_account(*size, &mut counter))
        .collect();
    let mut tiered_storage = TieredStorage::new_writable(String::from("skip_one"));
    let infos = tiered_storage
        .write_accounts(&batch, 1, &hot_format())
        .unwrap();
    assert_eq!(infos.len(), 2);
    let reader = tiered_storage.reader().unwrap();
    assert_eq!(reader.record_count(), 2);
    let (first, next) = reader.get_record(0).unwrap();
    assert_eq!(first.address.bytes(), batch[1].address.bytes());
    assert_eq!(first.data, batch[1].data);
    let (second, _) = reader.get_record(next).unwrap();
    assert_eq!(second.address.bytes(), batch[2].address.bytes());
}

#[test]
fn test_write_accounts_unknown_format() {
    let path = String::from("unknown_format");
    let mut tiered_storage = TieredStorage::new_writable(path.clone());
    let batch: Vec<AccountRecord> = Vec::new();
    let wrong = TieredStorageFormat {
        meta_entry_size: META_ENTRY_SIZE + 1,
        ..hot_format()
    };
    match tiered_storage.write_accounts(&batch, 0, &wrong) {
        Err(TieredStorageError::UnknownFormat(p)) => assert_eq!(p, path),
        other => panic!("expected the unknown-format error, got {other:?}"),
    }
    // The rejection happened before anything was produced: still writable.
    assert!(!tiered_storage.is_read_only());
    assert_eq!(tiered_storage.file_size().unwrap(), 0);
    write_zero_accounts(&mut tiered_storage, false);
}

#[test]
fn test_open_readonly_bad_magic() {
    let mut tiered_storage = TieredStorage::new_writable(String::from("bad_magic"));
    write_zero_accounts(&mut tiered_storage, false);
    let mut bytes = tiered_storage.reader().unwrap().file_bytes().clone();
    let last = bytes.len() - 1;
    bytes[last] ^= 0xFF;
    match TieredStorage::new_readonly(String::from("bad_magic"), bytes) {
        Err(TieredStorageError::MagicNumberMismatch(_, _)) => {}
        Err(other) => panic!("expected a magic-number mismatch, got {other:?}"),
        Ok(_) => panic!("expected a magic-number mismatch, opened the file"),
    }
}

#[test]
fn test_open_readonly_truncated() {
    match TieredStorage::new_readonly(String::from("truncated"), vec![0u8; 10]) {
        Err(TieredStorageError::InvalidFooter(_)) => {}
        Err(other) => panic!("expected an invalid-footer error, got {other:?}"),
        Ok(_) => panic!("expected an invalid-footer error, opened the file"),
    }
}

#[test]
fn test_open_readonly_corrupt_index() {
    let mut counter: u64 = 0;
    let batch: Vec<AccountRecord> = vec![create_account(4, &mut counter)];
    let mut tiered_storage = TieredStorage::new_writable(String::from("corrupt_index"));
    tiered_storage
        .write_accounts(&batch, 0, &hot_format())
        .unwrap();
    let mut bytes = tiered_storage.reader().unwrap().file_bytes().clone();
    // The index block sits just before the trailer; flip its slot field.
    let index_entry_start = bytes.len() - TRAILER_SIZE - 16;
    bytes[index_entry_start] ^= 0xFF;
    match TieredStorage::new_readonly(String::from("corrupt_index"), bytes) {
        Err(TieredStorageError::InvalidFooter(_)) => {}
        Err(other) => panic!("expected an invalid-footer error, got {other:?}"),
        Ok(_) => panic!("expected an invalid-footer error, opened the file"),
    }
}

#[test]
fn test_round_trip_through_reopen() {
    let mut counter: u64 = 0;
    let batch: Vec<AccountRecord> = [5u64, 0, 7]
        .iter()
        .map(|size| create_account(*size, &mut counter))
        .collect();
    let mut tiered_storage = TieredStorage::new_writable(String::from("reopen"));
    tiered_storage
        .write_accounts(&batch, 0, &hot_format())
        .unwrap();
    let bytes = tiered_storage.reader().unwrap().file_bytes().clone();

    let reopened = TieredStorage::new_readonly(String::from("reopen"), bytes).unwrap();
    let reader = reopened.reader().unwrap();
    assert_eq!(reader.record_count(), 3);
    let mut position: usize = 0;
    for record in &batch {
        let (stored_record, next) = reader.get_record(position).unwrap();
        assert_eq!(stored_record.address.bytes(), record.address.bytes());
        assert_eq!(stored_record.lamports, record.lamports);
        assert_eq!(stored_record.data, record.data);
        assert_eq!(stored_record.executable, record.executable);
        position = next;
    }
}
