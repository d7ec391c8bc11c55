use secm::error::KeyError;
use secm::key::{generate_secm_key, get_secm_key, key_from_entry, key_outcome, MasterKey, MemoryVault, Vault};

/// A vault that cannot be opened.
struct Locked;

impl Vault for Locked {
    fn find(&self) -> Result<Option<Vec<u8>>, KeyError> {
        Err(KeyError::KeyUnavailable)
    }

    fn store(&mut self, _key: &[u8]) -> Result<(), KeyError> {
        Err(KeyError::StoreFailed)
    }
}

/// A vault that holds nothing and takes nothing.
struct ReadOnly;

impl Vault for ReadOnly {
    fn find(&self) -> Result<Option<Vec<u8>>, KeyError> {
        Ok(None)
    }

    fn store(&mut self, _key: &[u8]) -> Result<(), KeyError> {
        Err(KeyError::StoreFailed)
    }
}

#[test]
fn test_secm_key() {
    let mut vault = MemoryVault::new();
    generate_secm_key(&mut vault).unwrap();

    let key = get_secm_key(&vault).unwrap();
    assert!(!key.as_bytes().is_empty());
}

#[test]
fn a_fresh_key_has_32_bytes() {
    let mut vault = MemoryVault::new();
    assert_eq!(generate_secm_key(&mut vault), Ok(()));
    assert_eq!(vault.entry.as_ref().unwrap().len(), 32);
    let mut other = MemoryVault::new();
    assert_eq!(generate_secm_key(&mut other), Ok(()));
    assert_ne!(vault.entry, other.entry);
}

#[test]
fn ensuring_twice_keeps_the_first_key() {
    let mut vault = MemoryVault::new();
    assert_eq!(generate_secm_key(&mut vault), Ok(()));
    let first = get_secm_key(&vault).unwrap().as_bytes().to_vec();
    assert_eq!(generate_secm_key(&mut vault), Ok(()));
    let second = get_secm_key(&vault).unwrap().as_bytes().to_vec();
    assert_eq!(first, second);
}

#[test]
fn an_existing_entry_is_never_overwritten() {
    let mut vault = MemoryVault { entry: Some(b"secm".to_vec()) };
    assert_eq!(generate_secm_key(&mut vault), Ok(()));
    assert_eq!(vault.entry, Some(b"secm".to_vec()));
}

#[test]
fn a_missing_key_is_unavailable() {
    let vault = MemoryVault::new();
    assert_eq!(get_secm_key(&vault).err(), Some(KeyError::KeyUnavailable));
    assert_eq!(get_secm_key(&Locked).err(), Some(KeyError::KeyUnavailable));
}

#[test]
fn vault_failures_are_passed_on() {
    assert_eq!(generate_secm_key(&mut Locked), Err(KeyError::KeyUnavailable));
    assert_eq!(generate_secm_key(&mut ReadOnly), Err(KeyError::StoreFailed));
}

#[test]
fn a_short_entry_is_filled_with_zeros() {
    let key = MasterKey::from_stored(b"abc").unwrap();
    let mut want = [0u8; 32];
    want[..3].copy_from_slice(b"abc");
    assert_eq!(key.as_bytes(), &want);
    let full = MasterKey::from_stored(&[7u8; 32]).unwrap();
    assert_eq!(full.as_bytes(), &[7u8; 32]);
    let empty = MasterKey::from_stored(b"").unwrap();
    assert_eq!(empty.as_bytes(), &[0u8; 32]);
}

#[test]
fn a_long_entry_is_no_key() {
    assert_eq!(MasterKey::from_stored(&[7u8; 33]).err(), Some(KeyError::InvalidLength));
    let vault = MemoryVault { entry: Some(vec![1u8; 40]) };
    assert_eq!(get_secm_key(&vault).err(), Some(KeyError::InvalidLength));
}

#[test]
fn outcomes_follow_the_vault() {
    assert_eq!(key_outcome(Err(KeyError::KeyUnavailable), None), Err(KeyError::KeyUnavailable));
    assert_eq!(key_outcome(Ok(Some(vec![1])), None), Ok(()));
    assert_eq!(key_outcome(Ok(None), None), Err(KeyError::KeyUnavailable));
    assert_eq!(key_outcome(Ok(None), Some(Ok(()))), Ok(()));
    assert_eq!(key_outcome(Ok(None), Some(Err(KeyError::StoreFailed))), Err(KeyError::StoreFailed));
    assert_eq!(key_from_entry(Ok(None)).err(), Some(KeyError::KeyUnavailable));
    assert_eq!(key_from_entry(Err(KeyError::StoreFailed)).err(), Some(KeyError::StoreFailed));
    assert_eq!(key_from_entry(Ok(Some(vec![9u8; 32]))).unwrap().as_bytes(), &[9u8; 32]);
}
