//! AES-256 in CBC mode with PKCS#7 padding. The block cipher is that of
//! the `crypto` crate. The padding is added and checked here: the crate's
//! own check takes a padding byte of zero for well-formed, and ends the
//! program on a last block of equal bytes above the block size.

use vstd::prelude::*;
use vstd::slice::slice_subrange;
use crate::bytes::push_all;
use crate::error::CipherError;

verus! {

/// The size of a cipher block, in bytes.
pub const BLOCK: usize = 16;

/// What `crypto`'s AES-256-CBC encryptor, without padding, makes of a whole
/// number of blocks under a key and an initialisation vector.
pub uninterp spec fn blocks_encrypted(data: Seq<u8>, key: Seq<u8>, iv: Seq<u8>) -> Seq<u8>;

/// What `crypto`'s AES-256-CBC decryptor, without padding, makes of a whole
/// number of blocks under a key and an initialisation vector.
pub uninterp spec fn blocks_decrypted(data: Seq<u8>, key: Seq<u8>, iv: Seq<u8>) -> Seq<u8>;

/// `crypto::aes::cbc_encryptor` with `KeySize256` and `NoPadding`, run once
/// over the input with room for all of its output. A whole number of blocks
/// is always encrypted, to as many bytes as there came in; anything else is
/// refused. Decrypted under the same key and vector, the output is the input
/// again: this is believed of the cipher, not proved.
#[verifier::external_body]
fn encrypt_blocks(data: &[u8], key: &[u8; 32], iv: &[u8; 16]) -> (r: Result<Vec<u8>, CipherError>)
    ensures
        data@.len() % 16 == 0 ==> r is Ok,
        r matches Ok(out) ==> out@ == blocks_encrypted(data@, key@, iv@) && out@.len()
            == data@.len() && blocks_decrypted(out@, key@, iv@) == data@,
{
    let size = crypto::aes::KeySize::KeySize256;
    let mut cipher = crypto::aes::cbc_encryptor(size, key, iv, crypto::blockmodes::NoPadding);
    let mut out = vec![0u8; data.len()];
    let mut reader = crypto::buffer::RefReadBuffer::new(data);
    let mut writer = crypto::buffer::RefWriteBuffer::new(&mut out);
    match cipher.encrypt(&mut reader, &mut writer, true) {
        Ok(_) => Ok(out),
        Err(crypto::symmetriccipher::SymmetricCipherError::InvalidLength) => Err(CipherError::InvalidLength),
        Err(crypto::symmetriccipher::SymmetricCipherError::InvalidPadding) => Err(CipherError::InvalidPadding),
    }
}

/// `crypto::aes::cbc_decryptor` with `KeySize256` and `NoPadding`, run once
/// over the input with room for all of its output. A whole number of blocks
/// is always decrypted, to as many bytes as there came in; anything else is
/// refused. Encrypted under the same key and vector, the output is the input
/// again: this is believed of the cipher, not proved.
#[verifier::external_body]
fn decrypt_blocks(data: &[u8], key: &[u8; 32], iv: &[u8; 16]) -> (r: Result<Vec<u8>, CipherError>)
    ensures
        data@.len() % 16 == 0 ==> r is Ok,
        r matches Ok(out) ==> out@ == blocks_decrypted(data@, key@, iv@) && out@.len()
            == data@.len() && blocks_encrypted(out@, key@, iv@) == data@,
{
    let size = crypto::aes::KeySize::KeySize256;
    let mut cipher = crypto::aes::cbc_decryptor(size, key, iv, crypto::blockmodes::NoPadding);
    let mut out = vec![0u8; data.len()];
    let mut reader = crypto::buffer::RefReadBuffer::new(data);
    let mut writer = crypto::buffer::RefWriteBuffer::new(&mut out);
    match cipher.decrypt(&mut reader, &mut writer, true) {
        Ok(_) => Ok(out),
        Err(crypto::symmetriccipher::SymmetricCipherError::InvalidLength) => Err(CipherError::InvalidLength),
        Err(crypto::symmetriccipher::SymmetricCipherError::InvalidPadding) => Err(CipherError::InvalidPadding),
    }
}

/// The number of padding bytes behind `n` bytes of data: what is missing
/// to the next block boundary, and a whole block if nothing is.
pub open spec fn pad_len(n: int) -> int {
    16 - n % 16
}

/// The data with its PKCS#7 padding: each padding byte holds the number of
/// padding bytes.
pub open spec fn padded(p: Seq<u8>) -> Seq<u8> {
    p + Seq::new(pad_len(p.len() as int) as nat, |i: int| pad_len(p.len() as int) as u8)
}

/// Whether `b` ends in well-formed PKCS#7 padding: a whole number of
/// blocks, at least one, whose last byte is a count from 1 to 16, with that
/// many bytes of that value at the end.
pub open spec fn well_padded(b: Seq<u8>) -> bool {
    &&& b.len() > 0
    &&& b.len() % 16 == 0
    &&& 1 <= b.last() <= 16
    &&& forall|j: int| b.len() - b.last() <= j < b.len() ==> b[j] == b.last()
}

/// The data without its padding.
pub open spec fn unpadded(b: Seq<u8>) -> Seq<u8> {
    b.subrange(0, b.len() - b.last())
}

/// The ciphertext of a plaintext.
pub open spec fn encrypted(p: Seq<u8>, key: Seq<u8>, iv: Seq<u8>) -> Seq<u8> {
    blocks_encrypted(padded(p), key, iv)
}

/// The plaintext of a ciphertext, or why it has none.
pub open spec fn decrypted(c: Seq<u8>, key: Seq<u8>, iv: Seq<u8>) -> Result<Seq<u8>, CipherError> {
    if c.len() == 0 || c.len() % 16 != 0 {
        Err(CipherError::InvalidLength)
    } else if !well_padded(blocks_decrypted(c, key, iv)) {
        Err(CipherError::InvalidPadding)
    } else {
        Ok(unpadded(blocks_decrypted(c, key, iv)))
    }
}

/// Padding can be taken off again.
pub proof fn lemma_unpad_padded(p: Seq<u8>)
    ensures
        padded(p).len() == p.len() + pad_len(p.len() as int),
        1 <= pad_len(p.len() as int) <= 16,
        well_padded(padded(p)),
        unpadded(padded(p)) == p,
{
    assert(unpadded(padded(p)) =~= p);
}

/// Padding that was taken off can be put on again: well-padded blocks are
/// the padding of what they hold.
pub proof fn lemma_pad_unpadded(b: Seq<u8>)
    requires
        well_padded(b),
    ensures
        unpadded(b).len() < b.len() <= unpadded(b).len() + 16,
        padded(unpadded(b)) == b,
{
    let p = unpadded(b);
    let n = b.last() as int;
    assert(p.len() == b.len() - n);
    assert(pad_len(p.len() as int) == n) by {
        assert((b.len() - n) % 16 == 16 - n || (n == 16 && (b.len() - n) % 16 == 0));
    }
    assert(padded(p) =~= b);
}

/// Adds PKCS#7 padding.
pub fn pad(p: &[u8]) -> (out: Vec<u8>)
    requires
        p@.len() + 16 <= usize::MAX,
    ensures
        out@ == padded(p@),
{
    let n: usize = BLOCK - p.len() % BLOCK;
    let mut out: Vec<u8> = Vec::new();
    push_all(&mut out, p);
    let mut i: usize = 0;
    while i < n
        invariant
            0 <= i <= n,
            n == pad_len(p@.len() as int),
            1 <= n <= 16,
            out@ == p@ + Seq::new(i as nat, |j: int| n as u8),
        decreases n - i,
    {
        out.push(n as u8);
        assert(out@ =~= p@ + Seq::new((i + 1) as nat, |j: int| n as u8));
        i += 1;
    }
    out
}

/// Checks PKCS#7 padding and takes it off.
pub fn unpad(b: &[u8]) -> (r: Option<Vec<u8>>)
    ensures
        match r {
            Some(p) => well_padded(b@) && p@ == unpadded(b@),
            None => !well_padded(b@),
        },
{
    let len = b.len();
    if len == 0 || len % BLOCK != 0 {
        return None;
    }
    let last = b[len - 1];
    if last < 1 || last > 16 {
        return None;
    }
    let n: usize = last as usize;
    let mut j: usize = len - n;
    while j < len
        invariant
            len == b@.len(),
            last == b@.last(),
            n == last,
            1 <= n <= 16,
            len >= 16,
            len - n <= j <= len,
            forall|k: int| len - n <= k < j ==> b@[k] == b@.last(),
        decreases len - j,
    {
        if b[j] != last {
            return None;
        }
        j += 1;
    }
    let mut out: Vec<u8> = Vec::new();
    push_all(&mut out, slice_subrange(b, 0, len - n));
    Some(out)
}

/// Encrypts a buffer under a key and an initialisation vector. The same
/// three inputs always give the same ciphertext, and `aes256_cbc_decrypt`
/// gives the plaintext back from it.
pub fn aes256_cbc_encrypt(data: &[u8], key: &[u8; 32], iv: &[u8; 16]) -> (r: Result<
    Vec<u8>,
    CipherError,
>)
    requires
        data@.len() + 16 <= usize::MAX,
    ensures
        r matches Ok(c) && c@ == encrypted(data@, key@, iv@),
        r matches Ok(c) && decrypted(c@, key@, iv@) == Ok::<Seq<u8>, CipherError>(data@),
        r matches Ok(c) && c@.len() == data@.len() + pad_len(data@.len() as int),
{
    proof {
        lemma_unpad_padded(data@);
    }
    let blocks = pad(data);
    encrypt_blocks(blocks.as_slice(), key, iv)
}

/// Decrypts a buffer under a key and an initialisation vector. A buffer
/// that is empty or no whole number of blocks is refused, and so is one
/// whose plaintext does not end in well-formed padding. What is accepted
/// is what `aes256_cbc_encrypt` makes of the plaintext: a whole number of
/// blocks, 1 to 16 bytes longer than the plaintext.
pub fn aes256_cbc_decrypt(data: &[u8], key: &[u8; 32], iv: &[u8; 16]) -> (r: Result<
    Vec<u8>,
    CipherError,
>)
    ensures
        match r {
            Ok(p) => decrypted(data@, key@, iv@) == Ok::<Seq<u8>, CipherError>(p@),
            Err(e) => decrypted(data@, key@, iv@) == Err::<Seq<u8>, CipherError>(e),
        },
        r matches Ok(p) ==> data@.len() % 16 == 0 && p@.len() < data@.len() && data@.len()
            <= p@.len() + 16,
        r matches Ok(p) ==> encrypted(p@, key@, iv@) == data@,
{
    if data.len() == 0 || data.len() % BLOCK != 0 {
        return Err(CipherError::InvalidLength);
    }
    match decrypt_blocks(data, key, iv) {
        Err(e) => Err(e),
        Ok(blocks) => {
            proof {
                if well_padded(blocks@) {
                    lemma_pad_unpadded(blocks@);
                }
            }
            match unpad(blocks.as_slice()) {
                Some(p) => Ok(p),
                None => Err(CipherError::InvalidPadding),
            }
        },
    }
}

} // verus!
