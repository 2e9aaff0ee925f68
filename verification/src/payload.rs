//! Payloads that a transport delivers as base64 text.

use vstd::prelude::*;
use vstd::slice::slice_subrange;
use base64::Engine;
use crate::cipher::decrypt;
use crate::cipher::decrypted;
use crate::error::DownloadError;
use crate::text::chars_of;
use crate::text::string_of;

verus! {

broadcast use vstd::slice::group_slice_axioms;

#[verifier::external_type_specification]
#[verifier::external_body]
pub struct ExDecodeError(base64::DecodeError);

/// The bytes that `text` writes in base64, standard alphabet, padded;
/// `None` where `text` is no such writing.
pub uninterp spec fn base64_decoded(text: Seq<char>) -> Option<Seq<u8>>;

/// `STANDARD.decode` of the `base64` crate: the bytes that come out are
/// `base64_decoded` of the text, and an error comes back exactly where that
/// is `None`.
#[verifier::external_body]
pub(crate) fn decode_base64(text: &str) -> (r: Result<Vec<u8>, base64::DecodeError>)
    ensures
        match r {
            Ok(bytes) => base64_decoded(text@) == Some(bytes@),
            Err(_) => base64_decoded(text@) is None,
        },
{
    base64::engine::general_purpose::STANDARD.decode(text)
}

/// `c` is white space: one of the characters that Unicode gives the
/// property White_Space.
pub open spec fn is_space(c: char) -> bool {
    let n = c as u32;
    ||| 0x09 <= n <= 0x0d
    ||| n == 0x20
    ||| n == 0x85
    ||| n == 0xa0
    ||| n == 0x1680
    ||| 0x2000 <= n <= 0x200a
    ||| n == 0x2028
    ||| n == 0x2029
    ||| n == 0x202f
    ||| n == 0x205f
    ||| n == 0x3000
}

/// The number of white space characters that `s` begins with.
pub open spec fn leading_spaces(s: Seq<char>) -> nat
    decreases s.len(),
{
    if s.len() > 0 && is_space(s[0]) {
        1 + leading_spaces(s.drop_first())
    } else {
        0
    }
}

/// The number of white space characters that `s` ends with.
pub open spec fn trailing_spaces(s: Seq<char>) -> nat
    decreases s.len(),
{
    if s.len() > 0 && is_space(s.last()) {
        1 + trailing_spaces(s.drop_last())
    } else {
        0
    }
}

/// `s` without the white space at its beginning and at its end.
pub open spec fn trimmed(s: Seq<char>) -> Seq<char> {
    let from = leading_spaces(s);
    let rest = s.subrange(from as int, s.len() as int);
    rest.subrange(0, rest.len() - trailing_spaces(rest))
}

/// Whether `c` is white space.
pub fn space(c: char) -> (r: bool)
    ensures
        r == is_space(c),
{
    let n: u32 = c as u32;
    (0x09 <= n && n <= 0x0d) || n == 0x20 || n == 0x85 || n == 0xa0 || n == 0x1680 || (0x2000 <= n
        && n <= 0x200a) || n == 0x2028 || n == 0x2029 || n == 0x202f || n == 0x205f || n == 0x3000
}

/// `s` without the white space at its beginning and at its end.
pub fn trim<'a>(s: &'a [char]) -> (r: &'a [char])
    ensures
        r@ == trimmed(s@),
{
    let n: usize = s.len();
    let mut from: usize = 0;
    assert(s@.subrange(0, n as int) =~= s@);
    while from < n && space(s[from])
        invariant
            from <= n == s@.len(),
            leading_spaces(s@) == from + leading_spaces(s@.subrange(from as int, n as int)),
        decreases n - from,
    {
        proof {
            let rest = s@.subrange(from as int, n as int);
            assert(rest[0] == s@[from as int]);
            assert(rest.drop_first() =~= s@.subrange(from + 1, n as int));
        }
        from += 1;
    }
    proof {
        let rest = s@.subrange(from as int, n as int);
        if from < n {
            assert(rest[0] == s@[from as int]);
        }
        assert(leading_spaces(rest) == 0);
    }
    let rest = slice_subrange(s, from, n);
    let mut to: usize = rest.len();
    assert(rest@.subrange(0, to as int) =~= rest@);
    while to > 0 && space(rest[to - 1])
        invariant
            to <= rest@.len(),
            trailing_spaces(rest@) == rest@.len() - to + trailing_spaces(
                rest@.subrange(0, to as int),
            ),
        decreases to,
    {
        proof {
            let head = rest@.subrange(0, to as int);
            assert(head.last() == rest@[to - 1]);
            assert(head.drop_last() =~= rest@.subrange(0, to - 1));
        }
        to -= 1;
    }
    proof {
        let head = rest@.subrange(0, to as int);
        if to > 0 {
            assert(head.last() == rest@[to - 1]);
        }
        assert(trailing_spaces(head) == 0);
    }
    slice_subrange(rest, 0, to)
}

/// The bytes that a payload writes: its text, without the white space
/// around it, read as base64.
pub open spec fn payload_bytes(payload: Seq<char>) -> Option<Seq<u8>> {
    base64_decoded(trimmed(payload))
}

/// The bytes of a payload delivered as base64 text; the white space around
/// the text does not count. `None` for text that is no base64.
pub fn decode_payload(payload: &str) -> (r: Option<Vec<u8>>)
    ensures
        match r {
            Some(bytes) => payload_bytes(payload@) == Some(bytes@),
            None => payload_bytes(payload@) is None,
        },
{
    let text = chars_of(payload);
    let inner = string_of(trim(text.as_slice()));
    match decode_base64(inner.as_str()) {
        Ok(bytes) => Some(bytes),
        Err(_) => None,
    }
}

/// What a segment delivered as base64 text holds: its bytes as they are
/// where no key is given, and decrypted with the key, itself delivered as
/// base64 text, where one is. A segment that is no base64 counts as a
/// failed transport, a key that is none as bad key data.
pub open spec fn payload_segment(payload: Seq<char>, key: Option<(Seq<char>, Seq<u8>)>) -> Result<
    Seq<u8>,
    DownloadError,
> {
    match payload_bytes(payload) {
        None => Err(DownloadError::TransportError),
        Some(data) => match key {
            None => Ok(data),
            Some((key_payload, iv)) => match payload_bytes(key_payload) {
                None => Err(DownloadError::InvalidKeyData),
                Some(key_bytes) => match decrypted(data, key_bytes, iv) {
                    Some(plain) => Ok(plain),
                    None => Err(DownloadError::DecryptionFailed),
                },
            },
        },
    }
}

/// The key given with a payload, as the contracts speak of it.
pub open spec fn key_view(key: Option<(&str, &[u8])>) -> Option<(Seq<char>, Seq<u8>)> {
    match key {
        Some((payload, iv)) => Some((payload@, iv@)),
        None => None,
    }
}

/// Decodes a segment delivered as base64 text and, where a key payload and
/// a vector come with it, decrypts it: see `payload_segment`.
pub fn decode_segment(payload: &str, key: Option<(&str, &[u8])>) -> (r: Result<
    Vec<u8>,
    DownloadError,
>)
    ensures
        match r {
            Ok(bytes) => payload_segment(payload@, key_view(key)) == Ok::<Seq<u8>, DownloadError>(
                bytes@,
            ),
            Err(e) => payload_segment(payload@, key_view(key)) == Err::<Seq<u8>, DownloadError>(e),
        },
{
    let data = match decode_payload(payload) {
        Some(data) => data,
        None => {
            return Err(DownloadError::TransportError);
        },
    };
    match key {
        None => Ok(data),
        Some((key_payload, iv)) => match decode_payload(key_payload) {
            Some(key_bytes) => decrypt(data.as_slice(), key_bytes.as_slice(), iv),
            None => Err(DownloadError::InvalidKeyData),
        },
    }
}

} // verus!
