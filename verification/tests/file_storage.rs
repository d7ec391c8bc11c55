use secm::error::{CipherError, CodecError, StorageError};
use secm::file_storage::{get_secrets, load, sync_secrets_to_file, EncryptedFileStorage};
use secm::key::MasterKey;
use secm::secret_set::SecretSet;
use secm::storage::row_outcome;
use secm::Storage;

fn key() -> MasterKey {
    MasterKey::from_stored(b"0123456789abcdef0123456789abcdef").unwrap()
}

fn other_key() -> MasterKey {
    MasterKey::from_stored(b"fedcba9876543210fedcba9876543210").unwrap()
}

fn pair(n: &str, v: &str) -> (String, String) {
    (n.to_string(), v.to_string())
}

#[test]
fn the_empty_file_holds_nothing() {
    let storage = EncryptedFileStorage::new(Vec::new(), key());
    assert_eq!(storage.get_all(), Ok(vec![]));
    assert_eq!(storage.read("a"), Ok(None));
    assert_eq!(get_secrets(&[], &key()), Ok(vec![]));
}

#[test]
fn write_is_an_upsert() {
    let mut storage = EncryptedFileStorage::new(Vec::new(), key());
    assert_eq!(storage.write("b", "2"), Ok(()));
    assert_eq!(storage.write("a", "1"), Ok(()));
    assert_eq!(storage.get_all(), Ok(vec![pair("a", "1"), pair("b", "2")]));
    assert_eq!(storage.write("a", "3"), Ok(()));
    assert_eq!(storage.get_all(), Ok(vec![pair("a", "3"), pair("b", "2")]));
    assert_eq!(storage.read("a"), Ok(Some("3".to_string())));
    assert_eq!(storage.read("c"), Ok(None));
}

#[test]
fn the_file_is_a_vector_and_whole_blocks() {
    let mut storage = EncryptedFileStorage::new(Vec::new(), key());
    storage.write("api", "abc123").unwrap();
    assert_eq!(storage.blob.len(), 16 + 16);
    storage.write("a-longer-name", "a-longer-value").unwrap();
    assert_eq!(storage.blob.len(), 16 + 48);
    assert!(!storage.blob.windows(3).any(|w| w == b"api"));
}

#[test]
fn every_write_takes_a_fresh_vector() {
    let mut one = EncryptedFileStorage::new(Vec::new(), key());
    let mut two = EncryptedFileStorage::new(Vec::new(), key());
    one.write("api", "abc123").unwrap();
    two.write("api", "abc123").unwrap();
    assert_ne!(one.blob[..16], two.blob[..16]);
    assert_ne!(one.blob, two.blob);
    assert_eq!(one.get_all(), two.get_all());
}

#[test]
fn a_file_can_be_opened_again() {
    let mut storage = EncryptedFileStorage::new(Vec::new(), key());
    storage.write("api", "abc123").unwrap();
    storage.write("db", "hunter2").unwrap();
    let again = EncryptedFileStorage::new(storage.blob.clone(), key());
    assert_eq!(again.get_all(), Ok(vec![pair("api", "abc123"), pair("db", "hunter2")]));
}

#[test]
fn update_needs_the_key_to_exist() {
    let mut storage = EncryptedFileStorage::new(Vec::new(), key());
    assert_eq!(storage.update("a", "1"), Err(StorageError::NotFound));
    storage.write("a", "1").unwrap();
    assert_eq!(storage.update("a", "2"), Ok(()));
    assert_eq!(storage.read("a"), Ok(Some("2".to_string())));
    assert_eq!(storage.update("b", "2"), Err(StorageError::NotFound));
    assert_eq!(storage.get_all(), Ok(vec![pair("a", "2")]));
}

#[test]
fn delete_needs_the_key_to_exist() {
    let mut storage = EncryptedFileStorage::new(Vec::new(), key());
    assert_eq!(storage.delete("a"), Err(StorageError::NotFound));
    storage.write("a", "1").unwrap();
    storage.write("b", "2").unwrap();
    assert_eq!(storage.delete("a"), Ok(()));
    assert_eq!(storage.delete("a"), Err(StorageError::NotFound));
    assert_eq!(storage.get_all(), Ok(vec![pair("b", "2")]));
    assert_eq!(storage.delete("b"), Ok(()));
    assert_eq!(storage.get_all(), Ok(vec![]));
    assert_eq!(storage.blob.len(), 32);
}

#[test]
fn fields_that_cannot_be_encoded_are_refused() {
    let mut storage = EncryptedFileStorage::new(Vec::new(), key());
    assert_eq!(storage.write("my key", "v"), Err(StorageError::Unencodable));
    assert_eq!(storage.write("k", "two words"), Err(StorageError::Unencodable));
    assert_eq!(storage.write("k", "two\nlines"), Err(StorageError::Unencodable));
    assert_eq!(storage.write("", "v"), Err(StorageError::Unencodable));
    assert_eq!(storage.write("k", ""), Err(StorageError::Unencodable));
    assert!(storage.blob.is_empty());
    storage.write("k", "v").unwrap();
    assert_eq!(storage.update("k", "a b"), Err(StorageError::Unencodable));
    assert_eq!(storage.read("k"), Ok(Some("v".to_string())));
}

#[test]
fn a_damaged_file_is_an_error() {
    let mut storage = EncryptedFileStorage::new(Vec::new(), key());
    storage.write("api", "abc123").unwrap();
    let good = storage.blob.clone();

    let mut cut = good.clone();
    cut.pop();
    let mut damaged = EncryptedFileStorage::new(cut, key());
    assert_eq!(damaged.get_all(), Err(StorageError::Cipher(CipherError::InvalidLength)));
    assert_eq!(damaged.write("a", "1"), Err(StorageError::Cipher(CipherError::InvalidLength)));
    assert_eq!(damaged.blob.len(), good.len() - 1);

    let short = EncryptedFileStorage::new(vec![1u8; 10], key());
    assert_eq!(short.get_all(), Err(StorageError::Cipher(CipherError::InvalidLength)));
    let only_vector = EncryptedFileStorage::new(vec![1u8; 16], key());
    assert_eq!(only_vector.get_all(), Err(StorageError::Cipher(CipherError::InvalidLength)));

    let mut flipped = good.clone();
    let last = flipped.len() - 1;
    flipped[last] ^= 0x80;
    let r = EncryptedFileStorage::new(flipped, key()).get_all();
    assert!(matches!(r, Err(StorageError::Cipher(_)) | Err(StorageError::Codec(_))));
}

#[test]
fn another_key_does_not_open_the_file() {
    let mut storage = EncryptedFileStorage::new(Vec::new(), key());
    storage.write("api", "abc123").unwrap();
    let r = get_secrets(&storage.blob, &other_key());
    assert!(r.is_err());
}

#[test]
fn sync_and_get_secrets_agree() {
    let mut set = SecretSet::new();
    set.insert("github".to_string(), "ghp".to_string());
    set.insert("aws".to_string(), "AKIA".to_string());
    let iv = [5u8; 16];
    let blob = sync_secrets_to_file(&set, &key(), &iv).unwrap();
    assert_eq!(&blob[..16], &iv);
    assert_eq!(blob.len(), 16 + 32);
    assert_eq!(blob, sync_secrets_to_file(&set, &key(), &iv).unwrap());
    assert_eq!(get_secrets(&blob, &key()), Ok(vec![pair("aws", "AKIA"), pair("github", "ghp")]));
    assert_eq!(load(&blob, &key()).unwrap().to_pairs(), set.to_pairs());
}

#[test]
fn a_statement_that_changed_no_row_found_nothing() {
    assert_eq!(row_outcome(0), Err(StorageError::NotFound));
    assert_eq!(row_outcome(1), Ok(()));
    assert_eq!(row_outcome(7), Ok(()));
}

#[test]
fn bytes_that_decrypt_to_no_record_are_a_codec_error() {
    let mut set = SecretSet::new();
    set.insert("two words".to_string(), "value".to_string());
    let blob = sync_secrets_to_file(&set, &key(), &[1u8; 16]).unwrap();
    assert_eq!(get_secrets(&blob, &key()), Err(StorageError::Codec(CodecError::MalformedRecord)));
    let mut storage = EncryptedFileStorage::new(blob.clone(), key());
    assert_eq!(storage.read("value"), Err(StorageError::Codec(CodecError::MalformedRecord)));
    assert_eq!(storage.delete("value"), Err(StorageError::Codec(CodecError::MalformedRecord)));
    assert_eq!(storage.blob, blob);
}

#[test]
fn a_given_vector_fixes_the_bytes() {
    let iv = [9u8; 16];
    let mut storage = EncryptedFileStorage::new(Vec::new(), key());
    assert_eq!(storage.write_with("api", "abc123", Some(iv)), Ok(()));
    let mut set = SecretSet::new();
    set.insert("api".to_string(), "abc123".to_string());
    assert_eq!(storage.blob, sync_secrets_to_file(&set, &key(), &iv).unwrap());

    assert_eq!(storage.update_with("api", "xyz", Some([8u8; 16])), Ok(()));
    set.insert("api".to_string(), "xyz".to_string());
    assert_eq!(storage.blob, sync_secrets_to_file(&set, &key(), &[8u8; 16]).unwrap());

    assert_eq!(storage.delete_with("api", Some([7u8; 16])), Ok(()));
    assert_eq!(storage.blob, sync_secrets_to_file(&SecretSet::new(), &key(), &[7u8; 16]).unwrap());
}

#[test]
fn without_a_vector_nothing_is_stored() {
    let mut storage = EncryptedFileStorage::new(Vec::new(), key());
    assert_eq!(storage.write_with("api", "abc123", None), Err(StorageError::Io));
    assert!(storage.blob.is_empty());
    storage.write_with("api", "abc123", Some([1u8; 16])).unwrap();
    let before = storage.blob.clone();
    assert_eq!(storage.update_with("api", "x", None), Err(StorageError::Io));
    assert_eq!(storage.delete_with("api", None), Err(StorageError::Io));
    assert_eq!(storage.blob, before);
    assert_eq!(storage.write_with("a b", "x", None), Err(StorageError::Unencodable));
    assert_eq!(storage.update_with("ghost", "x", None), Err(StorageError::NotFound));
    assert_eq!(storage.delete_with("ghost", None), Err(StorageError::NotFound));
}
