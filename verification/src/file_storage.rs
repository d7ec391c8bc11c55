//! The flat-file backend, on the bytes of its file: an initialisation
//! vector of 16 bytes, then the encrypted encoding of the set. The caller
//! moves the bytes to and from the disk.

use vstd::prelude::*;
use vstd::slice::slice_subrange;
use vstd::string::StringExecFns;
use crate::bytes::push_all;
use crate::cipher::{aes256_cbc_decrypt, aes256_cbc_encrypt, decrypted, encrypted};
use crate::codec::{encodable, field_ok, is_field_ok, parse, parsed, serialize, serialized, lemma_parsed_is_encodable, lemma_round_trip, lemma_upsert_encodable, lemma_without_encodable};
use crate::error::StorageError;
use crate::key::{os_random_bytes, MasterKey};
use crate::secret_set::{has_name, lookup, pairs_view, sorted, upsert, without, Entry, SecretSet, lemma_build_of_sorted};
use crate::storage::Storage;

verus! {

/// The length of the initialisation vector at the head of the file.
pub const IV_LEN: usize = 16;

/// What the bytes of a file hold under a key. The empty file holds the
/// empty set, and the cipher is not asked.
pub open spec fn decoded(blob: Seq<u8>, key: Seq<u8>) -> Result<Seq<Entry>, StorageError> {
    if blob.len() == 0 {
        Ok(Seq::empty())
    } else if blob.len() < 16 {
        Err(StorageError::Cipher(crate::error::CipherError::InvalidLength))
    } else {
        match decrypted(blob.subrange(16, blob.len() as int), key, blob.subrange(0, 16)) {
            Err(e) => Err(StorageError::Cipher(e)),
            Ok(plain) => match parsed(plain) {
                Err(e) => Err(StorageError::Codec(e)),
                Ok(s) => Ok(s),
            },
        }
    }
}

/// The bytes of the file that holds a set, written under a key with a given
/// initialisation vector.
pub open spec fn encoded(s: Seq<Entry>, key: Seq<u8>, iv: Seq<u8>) -> Seq<u8> {
    iv + encrypted(serialized(s), key, iv)
}

/// The first 16 bytes of a buffer.
fn head(blob: &[u8]) -> (iv: [u8; 16])
    requires
        blob@.len() >= 16,
    ensures
        iv@ == blob@.subrange(0, 16),
{
    let mut iv = [0u8; 16];
    let mut i: usize = 0;
    while i < IV_LEN
        invariant
            0 <= i <= 16,
            blob@.len() >= 16,
            forall|j: int| 0 <= j < i ==> iv@[j] == blob@[j],
        decreases 16 - i,
    {
        iv[i] = blob[i];
        i += 1;
    }
    assert(iv@ =~= blob@.subrange(0, 16));
    iv
}

/// Reads the set that the bytes of a file hold.
pub fn load(blob: &[u8], key: &MasterKey) -> (r: Result<SecretSet, StorageError>)
    ensures
        match r {
            Ok(set) => set.wf() && decoded(blob@, key@) == Ok::<Seq<Entry>, StorageError>(set@),
            Err(e) => decoded(blob@, key@) == Err::<Seq<Entry>, StorageError>(e),
        },
{
    if blob.len() == 0 {
        return Ok(SecretSet::new());
    }
    if blob.len() < IV_LEN {
        return Err(StorageError::Cipher(crate::error::CipherError::InvalidLength));
    }
    let iv = head(blob);
    let body = slice_subrange(blob, IV_LEN, blob.len());
    match aes256_cbc_decrypt(body, key.as_bytes(), &iv) {
        Err(e) => Err(StorageError::Cipher(e)),
        Ok(plain) => match parse(plain.as_slice()) {
            Err(e) => Err(StorageError::Codec(e)),
            Ok(set) => Ok(set),
        },
    }
}

/// The secrets that the bytes of the secret file hold, in the order of
/// their names.
pub fn get_secrets(blob: &[u8], key: &MasterKey) -> (r: Result<Vec<(String, String)>, StorageError>)
    ensures
        match r {
            Ok(pairs) => decoded(blob@, key@) == Ok::<Seq<Entry>, StorageError>(pairs_view(pairs@)),
            Err(e) => decoded(blob@, key@) == Err::<Seq<Entry>, StorageError>(e),
        },
{
    match load(blob, key) {
        Ok(set) => Ok(set.to_pairs()),
        Err(e) => Err(e),
    }
}

/// The bytes to write to the secret file for a set: the vector, then the
/// ciphertext. A set whose names and values the encoding can hold is read
/// back from these bytes as it is. A set too large for the machine is
/// refused.
pub fn sync_secrets_to_file(secrets: &SecretSet, key: &MasterKey, iv: &[u8; 16]) -> (r: Result<
    Vec<u8>,
    StorageError,
>)
    requires
        secrets.wf(),
    ensures
        match r {
            Ok(blob) => serialized(secrets@).len() + 16 <= usize::MAX && blob@ == encoded(
                secrets@,
                key@,
                iv@,
            ) && (encodable(secrets@) ==> decoded(blob@, key@) == Ok::<Seq<Entry>, StorageError>(
                secrets@,
            )),
            Err(e) => e == StorageError::Io && serialized(secrets@).len() + 16 > usize::MAX,
        },
{
    let plain = serialize(secrets);
    if plain.len() > usize::MAX - 16 {
        return Err(StorageError::Io);
    }
    match aes256_cbc_encrypt(plain.as_slice(), key.as_bytes(), iv) {
        Err(_) => Err(StorageError::Io),
        Ok(body) => {
            let mut blob: Vec<u8> = Vec::new();
            push_all(&mut blob, iv.as_slice());
            push_all(&mut blob, body.as_slice());
            proof {
                assert(blob@.subrange(0, 16) =~= iv@);
                assert(blob@.subrange(16, blob@.len() as int) =~= body@);
                if encodable(secrets@) {
                    lemma_round_trip(secrets@);
                }
            }
            Ok(blob)
        },
    }
}

/// The flat-file backend: the bytes of the file and the key that they are
/// encrypted under.
pub struct EncryptedFileStorage {
    pub blob: Vec<u8>,
    pub key: MasterKey,
}

/// The bytes of the file once `s` is to be stored, given what the random
/// source handed out for a vector: without a vector, and for a set too
/// large for the machine, nothing can be stored.
pub open spec fn stored(s: Seq<Entry>, key: Seq<u8>, iv: Option<Seq<u8>>) -> Result<
    Seq<u8>,
    StorageError,
> {
    match iv {
        None => Err(StorageError::Io),
        Some(iv) => if serialized(s).len() + 16 > usize::MAX {
            Err(StorageError::Io)
        } else {
            Ok(encoded(s, key, iv))
        },
    }
}

/// The bytes of the file after a write, or why there is no write.
pub open spec fn written(
    blob: Seq<u8>,
    key: Seq<u8>,
    name: Seq<char>,
    value: Seq<char>,
    iv: Option<Seq<u8>>,
) -> Result<Seq<u8>, StorageError> {
    if !field_ok(name) || !field_ok(value) {
        Err(StorageError::Unencodable)
    } else {
        match decoded(blob, key) {
            Err(e) => Err(e),
            Ok(s) => stored(upsert(s, name, value), key, iv),
        }
    }
}

/// The bytes of the file after an update, or why there is no update.
pub open spec fn updated_file(
    blob: Seq<u8>,
    key: Seq<u8>,
    name: Seq<char>,
    value: Seq<char>,
    iv: Option<Seq<u8>>,
) -> Result<Seq<u8>, StorageError> {
    if !field_ok(value) {
        Err(StorageError::Unencodable)
    } else {
        match decoded(blob, key) {
            Err(e) => Err(e),
            Ok(s) => if has_name(s, name) {
                stored(upsert(s, name, value), key, iv)
            } else {
                Err(StorageError::NotFound)
            },
        }
    }
}

/// The bytes of the file after a delete, or why there is no delete.
pub open spec fn deleted_file(blob: Seq<u8>, key: Seq<u8>, name: Seq<char>, iv: Option<Seq<u8>>) -> Result<
    Seq<u8>,
    StorageError,
> {
    match decoded(blob, key) {
        Err(e) => Err(e),
        Ok(s) => if has_name(s, name) {
            stored(without(s, name), key, iv)
        } else {
            Err(StorageError::NotFound)
        },
    }
}

/// A fresh initialisation vector from the random source of the operating
/// system, if the source gives one.
fn fresh_iv() -> (iv: Option<[u8; 16]>) {
    match os_random_bytes(IV_LEN) {
        Some(bytes) => Some(head(bytes.as_slice())),
        None => None,
    }
}

/// The vector as a mathematical value.
pub open spec fn iv_view(iv: Option<[u8; 16]>) -> Option<Seq<u8>> {
    match iv {
        Some(v) => Some(v@),
        None => None,
    }
}

impl EncryptedFileStorage {
    /// The backend over the bytes of a file.
    pub fn new(blob: Vec<u8>, key: MasterKey) -> (s: EncryptedFileStorage)
        ensures
            s.blob@ == blob@,
            s.key@ == key@,
    {
        EncryptedFileStorage { blob, key }
    }

    /// Replaces the bytes by those of `set`, under the given vector.
    fn save(&mut self, set: &SecretSet, iv: Option<[u8; 16]>) -> (r: Result<(), StorageError>)
        requires
            set.wf(),
            encodable(set@),
        ensures
            final(self).key == old(self).key,
            match stored(set@, old(self).key@, iv_view(iv)) {
                Ok(b) => r is Ok && final(self).blob@ == b && decoded(b, old(self).key@) == Ok::<
                    Seq<Entry>,
                    StorageError,
                >(set@),
                Err(e) => r == Err::<(), StorageError>(e) && final(self).blob == old(self).blob,
            },
    {
        match iv {
            None => Err(StorageError::Io),
            Some(iv) => match sync_secrets_to_file(set, &self.key, &iv) {
                Ok(blob) => {
                    self.blob = blob;
                    Ok(())
                },
                Err(e) => Err(e),
            },
        }
    }

    /// Puts `value` under `name`, with the vector that the random source
    /// handed out. Names and values that the encoding cannot hold are
    /// refused, and a file that cannot be read stays as it is.
    pub fn write_with(&mut self, name: &str, value: &str, iv: Option<[u8; 16]>) -> (r: Result<
        (),
        StorageError,
    >)
        ensures
            final(self).key == old(self).key,
            match written(old(self).blob@, old(self).key@, name@, value@, iv_view(iv)) {
                Ok(b) => r is Ok && final(self).blob@ == b && final(self).contents() == upsert(
                    old(self).contents(),
                    name@,
                    value@,
                ),
                Err(e) => r == Err::<(), StorageError>(e) && final(self).blob == old(self).blob,
            },
    {
        if !is_field_ok(name) || !is_field_ok(value) {
            return Err(StorageError::Unencodable);
        }
        let mut set = match load(self.blob.as_slice(), &self.key) {
            Ok(set) => set,
            Err(e) => {
                return Err(e);
            },
        };
        proof {
            lemma_decoded_is_encodable(self.blob@, self.key@);
            lemma_upsert_encodable(set@, name@, value@);
        }
        set.insert(String::from_str(name), String::from_str(value));
        self.save(&set, iv)
    }

    /// Gives the existing `name` a new value, with the vector that the
    /// random source handed out.
    pub fn update_with(&mut self, name: &str, value: &str, iv: Option<[u8; 16]>) -> (r: Result<
        (),
        StorageError,
    >)
        ensures
            final(self).key == old(self).key,
            match updated_file(old(self).blob@, old(self).key@, name@, value@, iv_view(iv)) {
                Ok(b) => r is Ok && final(self).blob@ == b && final(self).contents() == upsert(
                    old(self).contents(),
                    name@,
                    value@,
                ),
                Err(e) => r == Err::<(), StorageError>(e) && final(self).blob == old(self).blob,
            },
    {
        if !is_field_ok(value) {
            return Err(StorageError::Unencodable);
        }
        let mut set = match load(self.blob.as_slice(), &self.key) {
            Ok(set) => set,
            Err(e) => {
                return Err(e);
            },
        };
        if !set.contains(name) {
            return Err(StorageError::NotFound);
        }
        proof {
            lemma_decoded_is_encodable(self.blob@, self.key@);
            lemma_named_field_ok(set@, name@);
            lemma_upsert_encodable(set@, name@, value@);
        }
        set.insert(String::from_str(name), String::from_str(value));
        self.save(&set, iv)
    }

    /// Takes `name` out, with the vector that the random source handed out.
    pub fn delete_with(&mut self, name: &str, iv: Option<[u8; 16]>) -> (r: Result<(), StorageError>)
        ensures
            final(self).key == old(self).key,
            match deleted_file(old(self).blob@, old(self).key@, name@, iv_view(iv)) {
                Ok(b) => r is Ok && final(self).blob@ == b && final(self).contents() == without(
                    old(self).contents(),
                    name@,
                ),
                Err(e) => r == Err::<(), StorageError>(e) && final(self).blob == old(self).blob,
            },
    {
        let mut set = match load(self.blob.as_slice(), &self.key) {
            Ok(set) => set,
            Err(e) => {
                return Err(e);
            },
        };
        if !set.contains(name) {
            return Err(StorageError::NotFound);
        }
        proof {
            lemma_decoded_is_encodable(self.blob@, self.key@);
            lemma_without_encodable(set@, name@);
        }
        set.remove(name);
        self.save(&set, iv)
    }
}

impl Storage for EncryptedFileStorage {
    open spec fn contents(&self) -> Seq<Entry> {
        match decoded(self.blob@, self.key@) {
            Ok(s) => s,
            Err(_) => Seq::empty(),
        }
    }

    open spec fn load_outcome(&self) -> Option<Result<Seq<Entry>, StorageError>> {
        Some(decoded(self.blob@, self.key@))
    }

    fn write(&mut self, key: &str, value: &str) -> (r: Result<(), StorageError>)
        ensures
            final(self).key == old(self).key,
            r is Err ==> final(self).blob == old(self).blob,
            exists|iv: Option<Seq<u8>>|
                match #[trigger] written(old(self).blob@, old(self).key@, key@, value@, iv) {
                    Ok(b) => r is Ok && final(self).blob@ == b,
                    Err(e) => r == Err::<(), StorageError>(e),
                },
    {
        let iv = fresh_iv();
        let r = self.write_with(key, value, iv);
        proof {
            let w = written(old(self).blob@, old(self).key@, key@, value@, iv_view(iv));
            assert(match w {
                Ok(b) => r is Ok && self.blob@ == b,
                Err(e) => r == Err::<(), StorageError>(e),
            });
        }
        r
    }

    fn read(&self, key: &str) -> (r: Result<Option<String>, StorageError>)
        ensures
            match decoded(self.blob@, self.key@) {
                Err(e) => r == Err::<Option<String>, StorageError>(e),
                Ok(s) => match r {
                    Ok(Some(v)) => lookup(s, key@) == Some(v@),
                    Ok(None) => lookup(s, key@) is None,
                    Err(_) => false,
                },
            },
    {
        match load(self.blob.as_slice(), &self.key) {
            Err(e) => Err(e),
            Ok(set) => match set.get(key) {
                Some(v) => Ok(Some(v.clone())),
                None => Ok(None),
            },
        }
    }

    fn update(&mut self, key: &str, value: &str) -> (r: Result<(), StorageError>)
        ensures
            final(self).key == old(self).key,
            r is Err ==> final(self).blob == old(self).blob,
            exists|iv: Option<Seq<u8>>|
                match #[trigger] updated_file(old(self).blob@, old(self).key@, key@, value@, iv) {
                    Ok(b) => r is Ok && final(self).blob@ == b,
                    Err(e) => r == Err::<(), StorageError>(e),
                },
    {
        let iv = fresh_iv();
        let r = self.update_with(key, value, iv);
        proof {
            let w = updated_file(old(self).blob@, old(self).key@, key@, value@, iv_view(iv));
            assert(match w {
                Ok(b) => r is Ok && self.blob@ == b,
                Err(e) => r == Err::<(), StorageError>(e),
            });
        }
        r
    }

    fn get_all(&self) -> (r: Result<Vec<(String, String)>, StorageError>)
        ensures
            match r {
                Ok(pairs) => decoded(self.blob@, self.key@) == Ok::<Seq<Entry>, StorageError>(
                    pairs_view(pairs@),
                ),
                Err(e) => decoded(self.blob@, self.key@) == Err::<Seq<Entry>, StorageError>(e),
            },
    {
        match load(self.blob.as_slice(), &self.key) {
            Err(e) => Err(e),
            Ok(set) => {
                proof {
                    lemma_build_of_sorted(set@);
                }
                Ok(set.to_pairs())
            },
        }
    }

    fn delete(&mut self, key: &str) -> (r: Result<(), StorageError>)
        ensures
            final(self).key == old(self).key,
            r is Err ==> final(self).blob == old(self).blob,
            exists|iv: Option<Seq<u8>>|
                match #[trigger] deleted_file(old(self).blob@, old(self).key@, key@, iv) {
                    Ok(b) => r is Ok && final(self).blob@ == b,
                    Err(e) => r == Err::<(), StorageError>(e),
                },
    {
        let iv = fresh_iv();
        let r = self.delete_with(key, iv);
        proof {
            let w = deleted_file(old(self).blob@, old(self).key@, key@, iv_view(iv));
            assert(match w {
                Ok(b) => r is Ok && self.blob@ == b,
                Err(e) => r == Err::<(), StorageError>(e),
            });
        }
        r
    }
}

/// What a file holds is in order and can be written again.
pub proof fn lemma_decoded_is_encodable(blob: Seq<u8>, key: Seq<u8>)
    requires
        decoded(blob, key) is Ok,
    ensures
        sorted(decoded(blob, key)->Ok_0),
        encodable(decoded(blob, key)->Ok_0),
{
    if blob.len() > 0 {
        let plain = decrypted(blob.subrange(16, blob.len() as int), key, blob.subrange(0, 16));
        lemma_parsed_is_encodable(plain->Ok_0);
    }
}

/// The name of an entry that can be written is a good field.
proof fn lemma_named_field_ok(s: Seq<Entry>, k: Seq<char>)
    requires
        encodable(s),
        has_name(s, k),
    ensures
        field_ok(k),
{
    crate::secret_set::lemma_lower_bound(s, k);
    assert(field_ok(s[crate::secret_set::lower_bound(s, k)].0));
}

} // verus!
