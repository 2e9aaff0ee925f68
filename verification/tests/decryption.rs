use cipher::block_padding::NoPadding;
use cipher::block_padding::Pkcs7;
use cipher::BlockEncryptMut;
use cipher::KeyIvInit;
use hotmart_downloader::cipher::decrypt;
use hotmart_downloader::error::DownloadError;

const KEY: [u8; 16] = [0x2b, 0x7e, 0x15, 0x16, 0x28, 0xae, 0xd2, 0xa6, 0xab, 0xf7, 0x15, 0x88, 0x09, 0xcf, 0x4f, 0x3c];
const IV: [u8; 16] = [0, 1, 2, 3, 4, 5, 6, 7, 8, 9, 10, 11, 12, 13, 14, 15];

fn encrypt(plain: &[u8], key: &[u8], iv: &[u8]) -> Vec<u8> {
    cbc::Encryptor::<aes::Aes128>::new_from_slices(key, iv)
        .unwrap()
        .encrypt_padded_vec_mut::<Pkcs7>(plain)
}

fn encrypt_raw(blocks: &[u8], key: &[u8], iv: &[u8]) -> Vec<u8> {
    cbc::Encryptor::<aes::Aes128>::new_from_slices(key, iv)
        .unwrap()
        .encrypt_padded_vec_mut::<NoPadding>(blocks)
}

#[test]
fn round_trip_reproduces_the_plaintext() {
    for len in [0usize, 1, 15, 16, 17, 31, 32, 33, 100, 1000] {
        let plain: Vec<u8> = (0..len).map(|i| (i * 7 + 3) as u8).collect();
        let ciphertext = encrypt(&plain, &KEY, &IV);
        assert_eq!(ciphertext.len(), (len / 16 + 1) * 16);
        assert_eq!(decrypt(&ciphertext, &KEY, &IV), Ok(plain));
    }
}

#[test]
fn known_vector_decrypts() {
    // NIST SP 800-38A, F.2.2 CBC-AES128.Decrypt, first block, followed by a
    // block of padding encrypted under the same chain.
    let plain = [0x6b, 0xc1, 0xbe, 0xe2, 0x2e, 0x40, 0x9f, 0x96, 0xe9, 0x3d, 0x7e, 0x11, 0x73, 0x93, 0x17, 0x2a];
    let ciphertext = encrypt(&plain, &KEY, &IV);
    assert_eq!(
        &ciphertext[..16],
        &[0x76, 0x49, 0xab, 0xac, 0x81, 0x19, 0xb2, 0x46, 0xce, 0xe9, 0x8e, 0x9b, 0x12, 0xe9, 0x19, 0x7d]
    );
    assert_eq!(decrypt(&ciphertext, &KEY, &IV), Ok(plain.to_vec()));
}

#[test]
fn result_is_not_the_input() {
    let plain = b"sixteen byte msg".to_vec();
    let ciphertext = encrypt(&plain, &KEY, &IV);
    let out = decrypt(&ciphertext, &KEY, &IV).unwrap();
    assert_ne!(out, ciphertext);
    assert_eq!(out, plain);
}

#[test]
fn short_key_is_refused() {
    let ciphertext = encrypt(b"hello", &KEY, &IV);
    assert_eq!(decrypt(&ciphertext, &KEY[..15], &IV), Err(DownloadError::DecryptionFailed));
    assert_eq!(decrypt(&ciphertext, &[], &IV), Err(DownloadError::DecryptionFailed));
    let long = [0u8; 32];
    assert_eq!(decrypt(&ciphertext, &long, &IV), Err(DownloadError::DecryptionFailed));
}

#[test]
fn wrong_vector_length_is_refused() {
    let ciphertext = encrypt(b"hello", &KEY, &IV);
    assert_eq!(decrypt(&ciphertext, &KEY, &IV[..8]), Err(DownloadError::DecryptionFailed));
    assert_eq!(decrypt(&ciphertext, &KEY, &[]), Err(DownloadError::DecryptionFailed));
}

#[test]
fn misaligned_ciphertext_is_refused() {
    let ciphertext = encrypt(b"hello world, this is more than one block", &KEY, &IV);
    assert_eq!(decrypt(&ciphertext[..17], &KEY, &IV), Err(DownloadError::DecryptionFailed));
    assert_eq!(decrypt(&ciphertext[..15], &KEY, &IV), Err(DownloadError::DecryptionFailed));
    assert_eq!(decrypt(&ciphertext[..1], &KEY, &IV), Err(DownloadError::DecryptionFailed));
}

#[test]
fn empty_ciphertext_is_refused() {
    assert_eq!(decrypt(&[], &KEY, &IV), Err(DownloadError::DecryptionFailed));
}

#[test]
fn bad_padding_is_refused() {
    let mut zero_pad = [7u8; 16];
    zero_pad[15] = 0;
    assert_eq!(decrypt(&encrypt_raw(&zero_pad, &KEY, &IV), &KEY, &IV), Err(DownloadError::DecryptionFailed));
    let mut too_long = [7u8; 16];
    too_long[15] = 17;
    assert_eq!(decrypt(&encrypt_raw(&too_long, &KEY, &IV), &KEY, &IV), Err(DownloadError::DecryptionFailed));
    let mut uneven = [3u8; 16];
    uneven[13] = 9;
    assert_eq!(decrypt(&encrypt_raw(&uneven, &KEY, &IV), &KEY, &IV), Err(DownloadError::DecryptionFailed));
}

#[test]
fn padding_of_every_length_is_removed() {
    for pad in 1u8..=16 {
        let mut block = [0xaau8; 16];
        for i in (16 - pad as usize)..16 {
            block[i] = pad;
        }
        let out = decrypt(&encrypt_raw(&block, &KEY, &IV), &KEY, &IV).unwrap();
        assert_eq!(out, vec![0xaau8; 16 - pad as usize]);
    }
}

#[test]
fn wrong_key_does_not_give_the_plaintext() {
    let plain = b"some plaintext that spans blocks".to_vec();
    let ciphertext = encrypt(&plain, &KEY, &IV);
    let mut other = KEY;
    other[0] ^= 1;
    assert_ne!(decrypt(&ciphertext, &other, &IV), Ok(plain));
}
