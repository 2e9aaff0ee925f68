use base64::Engine;
use cipher::block_padding::Pkcs7;
use cipher::BlockEncryptMut;
use cipher::KeyIvInit;
use hotmart_downloader::error::DownloadError;
use hotmart_downloader::payload::decode_payload;
use hotmart_downloader::payload::decode_segment;
use hotmart_downloader::payload::space;
use hotmart_downloader::payload::trim;

fn chars(s: &str) -> Vec<char> {
    s.chars().collect()
}

#[test]
fn space_agrees_with_std_on_every_character() {
    for n in 0u32..=0x10ffff {
        if let Some(c) = char::from_u32(n) {
            assert_eq!(space(c), c.is_whitespace(), "U+{:04X}", n);
        }
    }
}

#[test]
fn trim_agrees_with_std() {
    let texts = ["", " ", "a", " a", "a ", "  a b  ", "\n\tab\r\n", "\u{a0}x\u{3000}", " \u{200b} ", "   "];
    for t in texts {
        let got: String = trim(&chars(t)).iter().collect();
        assert_eq!(got, t.trim(), "{:?}", t);
    }
}

#[test]
fn payload_is_decoded() {
    assert_eq!(decode_payload("aGVsbG8gd29ybGQ="), Some(b"hello world".to_vec()));
    assert_eq!(decode_payload("  aGVsbG8gd29ybGQ=\r\n"), Some(b"hello world".to_vec()));
    assert_eq!(decode_payload(""), Some(vec![]));
    assert_eq!(decode_payload(" \n "), Some(vec![]));
    assert_eq!(decode_payload("AAEC/w=="), Some(vec![0, 1, 2, 255]));
}

#[test]
fn payload_that_is_no_base64_is_refused() {
    assert_eq!(decode_payload("not base64!"), None);
    assert_eq!(decode_payload("aGVsbG8gd29ybGQ"), None);
    assert_eq!(decode_payload("aGVs bG8="), None);
    assert_eq!(decode_payload("AAEC_w=="), None);
}

#[test]
fn plain_segment_is_returned_as_it_is() {
    assert_eq!(decode_segment("AAEC/w==\n", None), Ok(vec![0, 1, 2, 255]));
    assert_eq!(decode_segment("***", None), Err(DownloadError::TransportError));
}

#[test]
fn encrypted_segment_is_decrypted() {
    let key = [7u8; 16];
    let iv = [9u8; 16];
    let plain = b"segment bytes go here".to_vec();
    let ciphertext = cbc::Encryptor::<aes::Aes128>::new_from_slices(&key, &iv)
        .unwrap()
        .encrypt_padded_vec_mut::<Pkcs7>(&plain);
    let payload = base64_text(&ciphertext);
    let key_payload = base64_text(&key);
    assert_eq!(decode_segment(&payload, Some((&key_payload, &iv))), Ok(plain));
    assert_eq!(
        decode_segment(&payload, Some(("@@", &iv))),
        Err(DownloadError::InvalidKeyData)
    );
    let short_key = base64_text(&key[..15]);
    assert_eq!(
        decode_segment(&payload, Some((&short_key, &iv))),
        Err(DownloadError::DecryptionFailed)
    );
}

fn base64_text(bytes: &[u8]) -> String {
    base64::engine::general_purpose::STANDARD.encode(bytes)
}
