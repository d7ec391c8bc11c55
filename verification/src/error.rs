//! The error kinds of every component, as plain tags.

use vstd::prelude::*;
use vstd::string::StringExecFns;

verus! {

/// Failures of the master-key provider.
#[derive(Debug, Clone, Copy, PartialEq, Eq, Structural)]
pub enum KeyError {
    /// No entry for the key exists, or the vault could not be opened.
    KeyUnavailable,
    /// The vault refused to store a new key.
    StoreFailed,
    /// The stored entry is longer than a master key.
    InvalidLength,
}

/// Failures of the cipher.
#[derive(Debug, Clone, Copy, PartialEq, Eq, Structural)]
pub enum CipherError {
    /// The ciphertext is empty or not a whole number of blocks.
    InvalidLength,
    /// The padding of the last block is malformed.
    InvalidPadding,
}

/// Failures of the record codec.
#[derive(Debug, Clone, Copy, PartialEq, Eq, Structural)]
pub enum CodecError {
    /// A line does not hold exactly two non-empty fields.
    MalformedRecord,
    /// A field is not valid UTF-8.
    InvalidUtf8,
}

/// Failures of a storage backend.
#[derive(Debug, Clone, Copy, PartialEq, Eq, Structural)]
pub enum StorageError {
    /// The named entry does not exist.
    NotFound,
    /// A name or value is empty or holds a space or a line break, which the
    /// flat-file encoding cannot represent.
    Unencodable,
    /// The stored bytes could not be decrypted.
    Cipher(CipherError),
    /// The decrypted bytes could not be parsed.
    Codec(CodecError),
    /// Reading or writing the backing file or database failed.
    Io,
}

/// Failures of the secret store.
#[derive(Debug, Clone, Copy, PartialEq, Eq, Structural)]
pub enum SecretError {
    /// A name or value is blank.
    EmptyField,
    /// The name is already taken.
    AlreadyExists,
    /// No secret has that name.
    NotFound,
    /// No secret is selected.
    NotSelected,
    /// The length leaves no room for a digit and a symbol.
    InvalidLength,
    /// The backend failed.
    Storage(StorageError),
}

impl SecretError {
    /// The characters of the message for each error.
    pub open spec fn spec_message(self) -> Seq<char> {
        match self {
            SecretError::EmptyField => "Name and value cannot be empty"@,
            SecretError::AlreadyExists => "Secret already exists"@,
            SecretError::NotFound => "Secret does not exist"@,
            SecretError::NotSelected => "No secret selected"@,
            SecretError::InvalidLength => "Length must be at least 2"@,
            SecretError::Storage(_) => "Storage failure"@,
        }
    }

    /// A short message for the user.
    pub fn message(&self) -> (s: String)
        ensures
            s@ == self.spec_message(),
    {
        match self {
            SecretError::EmptyField => String::from_str("Name and value cannot be empty"),
            SecretError::AlreadyExists => String::from_str("Secret already exists"),
            SecretError::NotFound => String::from_str("Secret does not exist"),
            SecretError::NotSelected => String::from_str("No secret selected"),
            SecretError::InvalidLength => String::from_str("Length must be at least 2"),
            SecretError::Storage(_) => String::from_str("Storage failure"),
        }
    }
}

} // verus!
