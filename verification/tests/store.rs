use secm::error::{SecretError, StorageError};
use secm::file_storage::EncryptedFileStorage;
use secm::key::MasterKey;
use secm::secret_set::SecretSet;
use secm::store::{add_refused, settle_delete, settle_write, update_refused, SecretStore};
use secm::text::is_blank;
use secm::Storage;

fn key() -> MasterKey {
    MasterKey::from_stored(b"0123456789abcdef0123456789abcdef").unwrap()
}

fn empty_store() -> SecretStore<EncryptedFileStorage> {
    SecretStore::new(EncryptedFileStorage::new(Vec::new(), key()))
}

fn pair(n: &str, v: &str) -> (String, String) {
    (n.to_string(), v.to_string())
}

/// A backend in memory whose operations can be made to fail.
struct Flaky {
    pairs: Vec<(String, String)>,
    fail_load: bool,
    fail_write: bool,
    fail_delete: bool,
    calls: Vec<String>,
}

impl Flaky {
    fn with(pairs: Vec<(String, String)>) -> Flaky {
        Flaky { pairs, fail_load: false, fail_write: false, fail_delete: false, calls: Vec::new() }
    }
}

impl Storage for Flaky {
    fn write(&mut self, key: &str, value: &str) -> Result<(), StorageError> {
        self.calls.push(format!("write {} {}", key, value));
        if self.fail_write {
            return Err(StorageError::Io);
        }
        self.pairs.retain(|p| p.0 != key);
        self.pairs.push(pair(key, value));
        Ok(())
    }

    fn read(&self, key: &str) -> Result<Option<String>, StorageError> {
        Ok(self.pairs.iter().find(|p| p.0 == key).map(|p| p.1.clone()))
    }

    fn update(&mut self, key: &str, value: &str) -> Result<(), StorageError> {
        self.calls.push(format!("update {} {}", key, value));
        match self.pairs.iter_mut().find(|p| p.0 == key) {
            Some(p) => {
                p.1 = value.to_string();
                Ok(())
            }
            None => Err(StorageError::NotFound),
        }
    }

    fn get_all(&self) -> Result<Vec<(String, String)>, StorageError> {
        if self.fail_load {
            return Err(StorageError::Io);
        }
        Ok(self.pairs.clone())
    }

    fn delete(&mut self, key: &str) -> Result<(), StorageError> {
        self.calls.push(format!("delete {}", key));
        if self.fail_delete {
            return Err(StorageError::Io);
        }
        let before = self.pairs.len();
        self.pairs.retain(|p| p.0 != key);
        if self.pairs.len() == before {
            Err(StorageError::NotFound)
        } else {
            Ok(())
        }
    }
}

#[test]
fn add_duplicate_is_refused() {
    let mut store = empty_store();
    assert_eq!(store.add("api", "abc123"), Ok(()));
    assert_eq!(store.add("api", "xyz"), Err(SecretError::AlreadyExists));
    assert_eq!(store.get("api"), Some(&"abc123".to_string()));
    assert_eq!(store.len(), 1);
    assert_eq!(store.storage.read("api"), Ok(Some("abc123".to_string())));
}

#[test]
fn delete_missing_is_not_found() {
    let mut store = empty_store();
    assert_eq!(store.delete("ghost"), Err(SecretError::NotFound));
}

#[test]
fn update_renames() {
    let mut store = empty_store();
    assert_eq!(store.add("old", "v1"), Ok(()));
    assert_eq!(store.update("old", "new", "v1"), Ok(()));
    assert_eq!(store.get("new"), Some(&"v1".to_string()));
    assert_eq!(store.get("old"), None);
    assert_eq!(store.len(), 1);
    assert_eq!(store.storage.get_all(), Ok(vec![pair("new", "v1")]));
}

#[test]
fn filter_returns_matching_names_in_order() {
    let mut store = empty_store();
    assert_eq!(store.add("github", "g"), Ok(()));
    assert_eq!(store.add("aws-secret", "s"), Ok(()));
    assert_eq!(store.add("aws-key", "k"), Ok(()));
    assert_eq!(store.filter("aws"), vec!["aws-key".to_string(), "aws-secret".to_string()]);
    assert_eq!(store.filter("AWS"), Vec::<String>::new());
    assert_eq!(store.filter("s-s"), vec!["aws-secret".to_string()]);
    assert_eq!(
        store.filter(""),
        vec!["aws-key".to_string(), "aws-secret".to_string(), "github".to_string()]
    );
    assert_eq!(store.len(), 3);
}

#[test]
fn blank_fields_are_refused() {
    let mut store = empty_store();
    assert_eq!(store.add("", "v"), Err(SecretError::EmptyField));
    assert_eq!(store.add("n", ""), Err(SecretError::EmptyField));
    assert_eq!(store.add("   ", "v"), Err(SecretError::EmptyField));
    assert_eq!(store.add("n", " \t\n"), Err(SecretError::EmptyField));
    assert_eq!(store.len(), 0);
    assert!(store.storage.blob.is_empty());
    assert!(is_blank(""));
    assert!(is_blank(" \u{a0}\t"));
    assert!(!is_blank(" a "));
}

#[test]
fn an_empty_field_comes_before_a_duplicate() {
    let mut store = empty_store();
    store.add("api", "abc123").unwrap();
    assert_eq!(store.add("api", " "), Err(SecretError::EmptyField));
}

#[test]
fn no_two_secrets_share_a_name() {
    let mut store = SecretStore::new(Flaky::with(vec![pair("b", "1"), pair("a", "2"), pair("b", "3")]));
    assert_eq!(store.len(), 2);
    store.add("c", "4").unwrap();
    assert_eq!(store.add("a", "5"), Err(SecretError::AlreadyExists));
    store.update("c", "d", "6").unwrap();
    assert_eq!(store.update("d", "a", "7"), Err(SecretError::AlreadyExists));
    let names = store.filter("");
    assert_eq!(names, vec!["a".to_string(), "b".to_string(), "d".to_string()]);
    assert_eq!(store.get("b"), Some(&"3".to_string()));
}

#[test]
fn update_rules() {
    let mut store = empty_store();
    store.add("a", "1").unwrap();
    store.add("b", "2").unwrap();
    assert_eq!(store.update("ghost", "x", "y"), Err(SecretError::NotSelected));
    assert_eq!(store.update("ghost", "", ""), Err(SecretError::NotSelected));
    assert_eq!(store.update("a", " ", "y"), Err(SecretError::EmptyField));
    assert_eq!(store.update("a", "x", ""), Err(SecretError::EmptyField));
    assert_eq!(store.update("a", "b", "y"), Err(SecretError::AlreadyExists));
    assert_eq!(store.get("a"), Some(&"1".to_string()));
    assert_eq!(store.get("b"), Some(&"2".to_string()));
    assert_eq!(store.update("a", "a", "3"), Ok(()));
    assert_eq!(store.get("a"), Some(&"3".to_string()));
    assert_eq!(store.len(), 2);
}

#[test]
fn update_deletes_before_it_writes() {
    let mut store = SecretStore::new(Flaky::with(vec![pair("old", "v1")]));
    store.update("old", "new", "v2").unwrap();
    assert_eq!(store.storage.calls, vec!["delete old".to_string(), "write new v2".to_string()]);
}

#[test]
fn delete_removes_from_backend_and_memory() {
    let mut store = empty_store();
    store.add("a", "1").unwrap();
    store.add("b", "2").unwrap();
    assert_eq!(store.delete("a"), Ok(()));
    assert_eq!(store.get("a"), None);
    assert_eq!(store.len(), 1);
    assert_eq!(store.storage.get_all(), Ok(vec![pair("b", "2")]));
    assert_eq!(store.delete("a"), Err(SecretError::NotFound));
}

#[test]
fn failed_write_leaves_memory_untouched() {
    let mut backend = Flaky::with(vec![pair("a", "1")]);
    backend.fail_write = true;
    backend.fail_delete = true;
    let mut store = SecretStore::new(backend);
    assert_eq!(store.add("b", "2"), Err(SecretError::Storage(StorageError::Io)));
    assert_eq!(store.len(), 1);
    assert_eq!(store.get("b"), None);
    assert_eq!(store.delete("a"), Err(SecretError::Storage(StorageError::Io)));
    assert_eq!(store.get("a"), Some(&"1".to_string()));
    assert_eq!(store.update("a", "c", "3"), Err(SecretError::Storage(StorageError::Io)));
    assert_eq!(store.get("a"), Some(&"1".to_string()));
    assert_eq!(store.get("c"), None);
}

#[test]
fn a_write_that_fails_after_the_delete_loses_the_secret() {
    let mut backend = Flaky::with(vec![pair("a", "1")]);
    backend.fail_write = true;
    let mut store = SecretStore::new(backend);
    assert_eq!(store.update("a", "b", "2"), Err(SecretError::Storage(StorageError::Io)));
    assert_eq!(store.get("a"), None);
    assert_eq!(store.get("b"), None);
    assert_eq!(store.len(), 0);
    assert_eq!(store.storage.pairs, vec![]);
}

#[test]
fn a_refused_operation_does_not_reach_the_backend() {
    let mut store = SecretStore::new(Flaky::with(vec![pair("a", "1")]));
    let _ = store.add("a", "2");
    let _ = store.add(" ", "2");
    let _ = store.delete("ghost");
    let _ = store.update("ghost", "x", "y");
    let _ = store.update("a", "", "y");
    assert!(store.storage.calls.is_empty());
}

#[test]
fn a_failed_load_starts_empty_and_is_kept() {
    let mut backend = Flaky::with(vec![pair("a", "1")]);
    backend.fail_load = true;
    let store = SecretStore::new(backend);
    assert_eq!(store.len(), 0);
    assert_eq!(store.load_error, Some(StorageError::Io));
    let fine = SecretStore::new(Flaky::with(vec![pair("a", "1")]));
    assert_eq!(fine.load_error, None);
    assert_eq!(fine.len(), 1);
}

#[test]
fn generate_adds_a_random_value() {
    let mut store = empty_store();
    assert_eq!(store.generate("plain", 12, false), Ok(()));
    let plain = store.get("plain").unwrap().clone();
    assert_eq!(plain.chars().count(), 12);
    assert!(plain.chars().all(|c| c.is_ascii_alphabetic()));

    assert_eq!(store.generate("strong", 12, true), Ok(()));
    let strong = store.get("strong").unwrap().clone();
    assert_eq!(strong.chars().count(), 12);
    assert_eq!(strong.chars().filter(|c| c.is_ascii_digit()).count(), 1);
    assert_eq!(strong.chars().filter(|c| "!@#$%^&*-_=+;:,./?".contains(*c)).count(), 1);
    assert_eq!(strong.chars().filter(|c| c.is_ascii_alphabetic()).count(), 10);

    assert_eq!(store.generate("plain", 12, false), Err(SecretError::AlreadyExists));
    assert_eq!(store.generate("", 12, false), Err(SecretError::EmptyField));
    assert_eq!(store.generate("nothing", 0, false), Err(SecretError::EmptyField));
    assert_eq!(store.generate("short", 1, true), Err(SecretError::InvalidLength));
    assert_eq!(store.generate("short", 0, true), Err(SecretError::InvalidLength));
    assert_eq!(store.get("short"), None);
    assert_eq!(store.generate("short", 2, true), Ok(()));
    assert_eq!(store.get("short").unwrap().chars().count(), 2);
    assert_eq!(store.get("plain"), Some(&plain));
}

#[test]
fn settling_mirrors_what_the_backend_said() {
    let mut set = SecretSet::new();
    assert_eq!(settle_write(&mut set, "a", "1", Ok(())), Ok(()));
    assert_eq!(set.get("a"), Some(&"1".to_string()));
    assert_eq!(
        settle_write(&mut set, "b", "2", Err(StorageError::NotFound)),
        Err(SecretError::Storage(StorageError::NotFound))
    );
    assert_eq!(set.len(), 1);
    assert_eq!(
        settle_delete(&mut set, "a", Err(StorageError::Io)),
        Err(SecretError::Storage(StorageError::Io))
    );
    assert_eq!(set.len(), 1);
    assert_eq!(settle_delete(&mut set, "a", Ok(())), Ok(()));
    assert!(set.is_empty());
}

#[test]
fn errors_have_messages() {
    assert_eq!(SecretError::EmptyField.message(), "Name and value cannot be empty");
    assert_eq!(SecretError::AlreadyExists.message(), "Secret already exists");
    assert_eq!(SecretError::NotFound.message(), "Secret does not exist");
    assert_eq!(SecretError::NotSelected.message(), "No secret selected");
    assert_eq!(SecretError::InvalidLength.message(), "Length must be at least 2");
    assert_eq!(SecretError::Storage(StorageError::Io).message(), "Storage failure");
}

#[test]
fn a_failed_load_is_settled_with_its_failure() {
    let (set, failure) = secm::store::settle_load(Err(StorageError::NotFound));
    assert!(set.is_empty());
    assert_eq!(failure, Some(StorageError::NotFound));
    let (set, failure) = secm::store::settle_load(Ok(vec![pair("b", "1"), pair("a", "2"), pair("b", "3")]));
    assert_eq!(set.to_pairs(), vec![pair("a", "2"), pair("b", "3")]);
    assert_eq!(failure, None);
}

#[test]
fn a_damaged_file_starts_an_empty_store_that_keeps_the_failure() {
    let store = SecretStore::new(EncryptedFileStorage::new(vec![1u8], key()));
    assert_eq!(store.len(), 0);
    assert_eq!(
        store.load_error,
        Some(StorageError::Cipher(secm::error::CipherError::InvalidLength))
    );
    assert_eq!(store.storage.blob, vec![1u8]);
}

#[test]
fn refusals_by_blankness() {
    let mut set = SecretSet::new();
    set.insert("api".to_string(), "abc123".to_string());
    set.insert("db".to_string(), "x".to_string());
    assert_eq!(add_refused(&set, "api", false, false), Some(SecretError::AlreadyExists));
    assert_eq!(add_refused(&set, "api", true, false), Some(SecretError::EmptyField));
    assert_eq!(add_refused(&set, "new", false, true), Some(SecretError::EmptyField));
    assert_eq!(add_refused(&set, "new", false, false), None);
    assert_eq!(update_refused(&set, "ghost", "new", true, true), Some(SecretError::NotSelected));
    assert_eq!(update_refused(&set, "api", "new", true, false), Some(SecretError::EmptyField));
    assert_eq!(update_refused(&set, "api", "new", false, true), Some(SecretError::EmptyField));
    assert_eq!(update_refused(&set, "api", "db", false, false), Some(SecretError::AlreadyExists));
    assert_eq!(update_refused(&set, "api", "api", false, false), None);
    assert_eq!(update_refused(&set, "api", "new", false, false), None);
}

#[test]
fn white_space_is_what_unicode_lists() {
    let mut found: Vec<u32> = Vec::new();
    for n in 0u32..=0x10FFFF {
        if let Some(c) = char::from_u32(n) {
            if is_blank(&c.to_string()) {
                found.push(n);
            }
        }
    }
    let mut listed: Vec<u32> = vec![0x09, 0x0A, 0x0B, 0x0C, 0x0D, 0x20, 0x85, 0xA0, 0x1680];
    listed.extend(0x2000u32..=0x200A);
    listed.extend([0x2028, 0x2029, 0x202F, 0x205F, 0x3000]);
    assert_eq!(found, listed);
}
