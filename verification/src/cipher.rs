//! Decrypting segments: AES-128 in CBC mode with PKCS#7 padding.
//!
//! The block cipher is that of the `aes`, `cbc` and `cipher` crates. What
//! it yields before the padding is taken off has a name here; the padding
//! rule itself is stated in full.

use vstd::prelude::*;
use cipher::BlockDecryptMut;
use cipher::KeyIvInit;
use crate::error::DownloadError;

verus! {

/// The size of an AES block, of an AES-128 key and of an initialization
/// vector, in bytes.
pub const BLOCK_SIZE: usize = 16;

/// The bytes that AES-128 decryption in CBC mode yields for `ciphertext`
/// under `key` and `iv`, the padding still on them. It is spoken of only
/// where the key and the vector have sixteen bytes and the ciphertext is a
/// whole number of blocks.
pub uninterp spec fn cbc_decrypted(key: Seq<u8>, iv: Seq<u8>, ciphertext: Seq<u8>) -> Seq<u8>;

/// Why the block cipher refused its input.
#[derive(Clone, Copy, Debug, PartialEq, Eq, Structural)]
pub enum CipherFailure {
    /// The key or the initialization vector has the wrong length.
    InvalidLength,
    /// The data is no whole number of blocks, or is empty, or does not end in
    /// a well-formed padding once decrypted.
    BadPadding,
}

/// `padded` ends in a PKCS#7 padding: its last byte is a number from 1 to 16,
/// and that many bytes at its end all hold that number.
pub open spec fn has_padding(padded: Seq<u8>) -> bool {
    &&& padded.len() >= BLOCK_SIZE
    &&& 1 <= padded.last() <= BLOCK_SIZE
    &&& forall|i: int|
        padded.len() - padded.last() <= i < padded.len() ==> #[trigger] padded[i] == padded.last()
}

/// `padded` without its padding.
pub open spec fn without_padding(padded: Seq<u8>) -> Seq<u8> {
    padded.subrange(0, padded.len() - padded.last())
}

/// The lengths that the cipher accepts: a key and a vector of sixteen bytes
/// and one or more whole blocks of data.
pub open spec fn lengths_fit(data: Seq<u8>, key: Seq<u8>, iv: Seq<u8>) -> bool {
    &&& key.len() == BLOCK_SIZE
    &&& iv.len() == BLOCK_SIZE
    &&& data.len() > 0
    &&& data.len() % (BLOCK_SIZE as nat) == 0
}

/// What decryption gives: the plaintext, or nothing where the lengths do not
/// fit or the padding is malformed.
pub open spec fn decrypted(data: Seq<u8>, key: Seq<u8>, iv: Seq<u8>) -> Option<Seq<u8>> {
    if lengths_fit(data, key, iv) && has_padding(cbc_decrypted(key, iv, data)) {
        Some(without_padding(cbc_decrypted(key, iv, data)))
    } else {
        None
    }
}

/// `Decryptor::<Aes128>::new_from_slices`, then `decrypt_padded_vec_mut`
/// with `Pkcs7`. The first refuses a key or a vector that is not sixteen
/// bytes long. The second refuses data that is not a whole number of blocks,
/// decrypts block by block, which keeps the length, refuses what then does
/// not end in a padding (empty data has none), and returns the bytes in
/// front of the padding.
#[verifier::external_body]
pub(crate) fn aes128_cbc_pkcs7(data: &[u8], key: &[u8], iv: &[u8]) -> (r: Result<
    Vec<u8>,
    CipherFailure,
>)
    ensures
        r is Ok ==> cbc_decrypted(key@, iv@, data@).len() == data@.len(),
        match r {
            Ok(plain) => decrypted(data@, key@, iv@) == Some(plain@),
            Err(CipherFailure::InvalidLength) => key@.len() != BLOCK_SIZE || iv@.len()
                != BLOCK_SIZE,
            Err(CipherFailure::BadPadding) => key@.len() == BLOCK_SIZE && iv@.len() == BLOCK_SIZE
                && decrypted(data@, key@, iv@) is None,
        },
{
    let decryptor = cbc::Decryptor::<aes::Aes128>::new_from_slices(key, iv).map_err(
        |_| CipherFailure::InvalidLength,
    )?;
    decryptor.decrypt_padded_vec_mut::<cipher::block_padding::Pkcs7>(data).map_err(
        |_| CipherFailure::BadPadding,
    )
}

/// The plaintext of `ciphertext` under `key` and `iv`.
///
/// Fails with `DecryptionFailed` where the key or the vector is not sixteen
/// bytes long, where the ciphertext is empty or no whole number of blocks,
/// and where what comes out does not end in a padding. Otherwise the result
/// is shorter than the ciphertext by the length of the padding, which is 1
/// to 16 bytes.
pub fn decrypt(ciphertext: &[u8], key: &[u8], iv: &[u8]) -> (r: Result<Vec<u8>, DownloadError>)
    ensures
        match r {
            Ok(plain) => {
                &&& decrypted(ciphertext@, key@, iv@) == Some(plain@)
                &&& plain@.len() + cbc_decrypted(key@, iv@, ciphertext@).last()
                    == ciphertext@.len()
                &&& ciphertext@.len() - BLOCK_SIZE <= plain@.len() < ciphertext@.len()
            },
            Err(e) => e == DownloadError::DecryptionFailed && decrypted(ciphertext@, key@, iv@)
                is None,
        },
        key@.len() != BLOCK_SIZE ==> r is Err,
        iv@.len() != BLOCK_SIZE ==> r is Err,
        ciphertext@.len() % (BLOCK_SIZE as nat) != 0 ==> r is Err,
{
    match aes128_cbc_pkcs7(ciphertext, key, iv) {
        Ok(plain) => Ok(plain),
        Err(_) => Err(DownloadError::DecryptionFailed),
    }
}

} // verus!
