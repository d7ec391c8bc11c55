//! The master key and where it is kept: a vault with one entry.

use vstd::prelude::*;
use crate::bytes::push_all;
use crate::error::KeyError;

verus! {

/// The length of a master key, in bytes.
pub const KEY_LEN: usize = 32;

/// The 256-bit key under which the secrets are encrypted.
#[derive(Clone, Copy)]
pub struct MasterKey {
    bytes: [u8; 32],
}

impl View for MasterKey {
    type V = Seq<u8>;

    closed spec fn view(&self) -> Seq<u8> {
        self.bytes@
    }
}

/// The key that a stored entry of at most 32 bytes stands for: its bytes,
/// filled up with zeros.
pub open spec fn key_of(stored: Seq<u8>) -> Seq<u8> {
    stored + Seq::new((32 - stored.len()) as nat, |i: int| 0u8)
}

impl MasterKey {
    /// The key that a vault entry stands for. An entry of more than 32
    /// bytes is no key.
    pub fn from_stored(stored: &[u8]) -> (r: Result<MasterKey, KeyError>)
        ensures
            stored@.len() <= 32 ==> (r matches Ok(k) && k@ == key_of(stored@)),
            stored@.len() > 32 ==> r == Err::<MasterKey, KeyError>(KeyError::InvalidLength),
            r matches Ok(k) ==> k@.len() == 32,
    {
        if stored.len() > KEY_LEN {
            return Err(KeyError::InvalidLength);
        }
        let mut bytes = [0u8; 32];
        let mut i: usize = 0;
        while i < stored.len()
            invariant
                0 <= i <= stored@.len() <= 32,
                forall|j: int| 0 <= j < i ==> bytes@[j] == stored@[j],
                forall|j: int| i <= j < 32 ==> bytes@[j] == 0u8,
            decreases stored@.len() - i,
        {
            bytes[i] = stored[i];
            i += 1;
        }
        let k = MasterKey { bytes };
        assert(k@ =~= key_of(stored@));
        Ok(k)
    }

    /// The bytes of the key.
    pub fn as_bytes(&self) -> (b: &[u8; 32])
        ensures
            b@ == self@,
            b@.len() == 32,
    {
        &self.bytes
    }
}

/// The place where the master key is kept: one entry under a fixed name.
pub trait Vault {
    /// The entry, if there is one.
    open spec fn stored(&self) -> Option<Seq<u8>> {
        arbitrary()
    }

    /// Whether the vault answers every call. A vault says so for itself;
    /// of one that does not, no answer is taken for granted.
    open spec fn reliable(&self) -> bool {
        false
    }

    /// Looks the entry up. A reliable vault gives its entry, or says that
    /// it has none.
    fn find(&self) -> (r: Result<Option<Vec<u8>>, KeyError>)
        ensures
            r matches Ok(Some(b)) ==> self.stored() == Some(b@),
            r matches Ok(None) ==> self.stored() is None,
            self.reliable() ==> r is Ok,
    ;

    /// Writes the entry. A failed write changes nothing. A reliable vault
    /// takes the entry and stays reliable.
    fn store(&mut self, key: &[u8]) -> (r: Result<(), KeyError>)
        ensures
            r is Ok ==> final(self).stored() == Some(key@),
            r is Err ==> final(self).stored() == old(self).stored(),
            old(self).reliable() ==> r is Ok && final(self).reliable(),
    ;
}

/// A vault in memory.
pub struct MemoryVault {
    pub entry: Option<Vec<u8>>,
}

impl MemoryVault {
    /// A vault without an entry.
    pub fn new() -> (v: MemoryVault)
        ensures
            v.stored() is None,
    {
        MemoryVault { entry: None }
    }
}

impl Vault for MemoryVault {
    open spec fn stored(&self) -> Option<Seq<u8>> {
        match self.entry {
            Some(b) => Some(b@),
            None => None,
        }
    }

    open spec fn reliable(&self) -> bool {
        true
    }

    fn find(&self) -> (r: Result<Option<Vec<u8>>, KeyError>)
        ensures
            r is Ok,
    {
        match &self.entry {
            Some(b) => {
                let mut copy: Vec<u8> = Vec::new();
                push_all(&mut copy, b.as_slice());
                Ok(Some(copy))
            },
            None => Ok(None),
        }
    }

    fn store(&mut self, key: &[u8]) -> (r: Result<(), KeyError>)
        ensures
            r is Ok,
    {
        let mut copy: Vec<u8> = Vec::new();
        push_all(&mut copy, key);
        self.entry = Some(copy);
        Ok(())
    }
}

/// `rand::RngCore::try_fill_bytes` on `rand::rngs::OsRng`: `n` bytes from
/// the operating system's random source, or nothing where the source
/// fails. Of the bytes only their number is known.
#[verifier::external_body]
pub(crate) fn os_random_bytes(n: usize) -> (r: Option<Vec<u8>>)
    ensures
        r matches Some(b) ==> b@.len() == n,
{
    let mut bytes = vec![0u8; n];
    match rand::RngCore::try_fill_bytes(&mut rand::rngs::OsRng, &mut bytes) {
        Ok(()) => Some(bytes),
        Err(_) => None,
    }
}

/// What a vault holds after a key was ensured: the entry that it had, or
/// the fresh key where it had none.
pub open spec fn ensured(stored: Option<Seq<u8>>, fresh: Seq<u8>) -> Option<Seq<u8>> {
    match stored {
        Some(_) => stored,
        None => Some(fresh),
    }
}

/// Ensuring a key a second time changes nothing: the key that the first
/// call left is the key that the second leaves.
pub proof fn lemma_ensure_key_idempotent(stored: Option<Seq<u8>>, first: Seq<u8>, second: Seq<u8>)
    ensures
        ensured(ensured(stored, first), second) == ensured(stored, first),
{
}

/// What `generate_secm_key` returns once the vault was asked and, where it
/// had no entry, a fresh key was stored.
pub fn key_outcome(found: Result<Option<Vec<u8>>, KeyError>, fresh: Option<Result<(), KeyError>>) -> (r:
    Result<(), KeyError>)
    ensures
        r == match found {
            Err(e) => Err::<(), KeyError>(e),
            Ok(Some(_)) => Ok::<(), KeyError>(()),
            Ok(None) => match fresh {
                None => Err::<(), KeyError>(KeyError::KeyUnavailable),
                Some(stored) => stored,
            },
        },
{
    match found {
        Err(e) => Err(e),
        Ok(Some(_)) => Ok(()),
        Ok(None) => match fresh {
            None => Err(KeyError::KeyUnavailable),
            Some(stored) => stored,
        },
    }
}

/// Makes sure that the vault holds a master key: where it holds none, a
/// fresh random key of 32 bytes is stored. An entry that exists is never
/// overwritten. On a reliable vault that holds a key this succeeds, and on
/// one that holds none it fails only where the random source gives no key.
pub fn generate_secm_key<V: Vault>(vault: &mut V) -> (r: Result<(), KeyError>)
    ensures
        old(vault).stored() is Some ==> final(vault).stored() == old(vault).stored(),
        r is Ok ==> exists|fresh: Seq<u8>|
            fresh.len() == 32 && final(vault).stored() == #[trigger] ensured(
                old(vault).stored(),
                fresh,
            ),
        r is Err ==> final(vault).stored() == old(vault).stored(),
        old(vault).reliable() ==> final(vault).reliable(),
        old(vault).reliable() ==> match old(vault).stored() {
            Some(_) => r is Ok,
            None => r is Ok || r == Err::<(), KeyError>(KeyError::KeyUnavailable),
        },
{
    let found = vault.find();
    let fresh = match &found {
        Ok(None) => match os_random_bytes(KEY_LEN) {
            Some(key) => {
                let stored = vault.store(key.as_slice());
                proof {
                    if stored is Ok {
                        assert(vault.stored() == ensured(old(vault).stored(), key@));
                    }
                }
                Some(stored)
            },
            None => None,
        },
        _ => None,
    };
    proof {
        if found matches Ok(Some(_)) {
            assert(vault.stored() == ensured(old(vault).stored(), Seq::new(32, |i: int| 0u8)));
        }
    }
    key_outcome(found, fresh)
}

/// The key that the answer of a vault stands for: no entry is no key, and
/// an entry of more than 32 bytes is none either.
pub fn key_from_entry(found: Result<Option<Vec<u8>>, KeyError>) -> (r: Result<MasterKey, KeyError>)
    ensures
        match found {
            Err(e) => r == Err::<MasterKey, KeyError>(e),
            Ok(None) => r == Err::<MasterKey, KeyError>(KeyError::KeyUnavailable),
            Ok(Some(b)) => if b@.len() <= 32 {
                r matches Ok(k) && k@ == key_of(b@)
            } else {
                r == Err::<MasterKey, KeyError>(KeyError::InvalidLength)
            },
        },
{
    match found {
        Err(e) => Err(e),
        Ok(None) => Err(KeyError::KeyUnavailable),
        Ok(Some(b)) => MasterKey::from_stored(b.as_slice()),
    }
}

/// The key that an entry stands for, or why there is none: no entry is no
/// key, and an entry of more than 32 bytes is none either.
pub open spec fn key_for(stored: Option<Seq<u8>>) -> Result<Seq<u8>, KeyError> {
    match stored {
        None => Err(KeyError::KeyUnavailable),
        Some(b) => if b.len() <= 32 {
            Ok(key_of(b))
        } else {
            Err(KeyError::InvalidLength)
        },
    }
}

/// The master key that the vault holds. A key that is returned is the key
/// of the vault's entry. A reliable vault always gives the key of its
/// entry, or the reason why the entry is no key.
pub fn get_secm_key<V: Vault>(vault: &V) -> (r: Result<MasterKey, KeyError>)
    ensures
        r matches Ok(k) ==> key_for(vault.stored()) == Ok::<Seq<u8>, KeyError>(k@),
        vault.reliable() ==> match r {
            Ok(k) => key_for(vault.stored()) == Ok::<Seq<u8>, KeyError>(k@),
            Err(e) => key_for(vault.stored()) == Err::<Seq<u8>, KeyError>(e),
        },
{
    key_from_entry(vault.find())
}

} // verus!
