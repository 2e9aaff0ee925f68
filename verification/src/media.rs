//! Reading the segments of a media playlist, each with the key that
//! protects it.

use vstd::prelude::*;
use crate::address::join_url;
use crate::address::parse_url;
use crate::address::parsed_url;
use crate::address::resolved_url;
use crate::error::DownloadError;
use crate::hexcode::decode_hex;
use crate::hexcode::hex_bytes;
use crate::hexcode::is_hex_text;
use crate::lines::line_views;
use crate::lines::lines_of;
use crate::lines::split_lines;
use crate::master::is_reference;
use crate::text::before_first;
use crate::text::chars_of;
use crate::text::contains;
use crate::text::cut_before;
use crate::text::cut_second;
use crate::text::has;
use crate::text::is_prefix;
use crate::text::second_piece;
use crate::text::starts_with;
use crate::text::string_of;

verus! {

broadcast use vstd::slice::group_slice_axioms;

/// The length of an initialization vector, in bytes.
pub const IV_SIZE: usize = 16;

/// Where the key of a segment is found, and the vector to decrypt with.
#[derive(Debug)]
pub struct EncryptionReference {
    pub key_url: String,
    pub iv: [u8; 16],
}

/// One segment: its address and what protects it, if anything.
#[derive(Debug)]
pub struct Segment {
    pub url: String,
    pub encryption: Option<EncryptionReference>,
}

/// What an `EncryptionReference` holds.
pub struct EncryptionView {
    pub key_url: Seq<char>,
    pub iv: Seq<u8>,
}

/// What a `Segment` holds.
pub struct SegmentView {
    pub url: Seq<char>,
    pub encryption: Option<EncryptionView>,
}

impl View for EncryptionReference {
    type V = EncryptionView;

    open spec fn view(&self) -> EncryptionView {
        EncryptionView { key_url: self.key_url@, iv: self.iv@ }
    }
}

impl View for Segment {
    type V = SegmentView;

    open spec fn view(&self) -> SegmentView {
        SegmentView {
            url: self.url@,
            encryption: match self.encryption {
                Some(e) => Some(e@),
                None => None,
            },
        }
    }
}

impl Clone for EncryptionReference {
    fn clone(&self) -> (r: Self)
        ensures
            r@ == self@,
    {
        EncryptionReference { key_url: self.key_url.clone(), iv: self.iv }
    }
}

impl Clone for Segment {
    fn clone(&self) -> (r: Self)
        ensures
            r@ == self@,
    {
        Segment {
            url: self.url.clone(),
            encryption: match &self.encryption {
                Some(e) => Some(e.clone()),
                None => None,
            },
        }
    }
}

/// The views of the segments held in `segments`.
pub open spec fn segment_views(segments: Seq<Segment>) -> Seq<SegmentView> {
    Seq::new(segments.len(), |i: int| segments[i]@)
}

/// The vector used where a key directive states none: sixteen zero bytes.
pub open spec fn zero_iv() -> Seq<u8> {
    Seq::new(IV_SIZE as nat, |i: int| 0u8)
}

/// `line` is a key directive.
pub open spec fn is_key_directive(line: Seq<char>) -> bool {
    is_prefix("#EXT-X-KEY:"@, line)
}

/// The key directive `line` names AES-128 as its method.
pub open spec fn names_aes128(line: Seq<char>) -> bool {
    contains(line, "METHOD=AES-128"@)
}

/// The key address that a key directive states: what follows the first
/// `URI="`, up to the next quotation mark.
pub open spec fn stated_key_uri(line: Seq<char>) -> Option<Seq<char>> {
    match second_piece(line, "URI=\""@) {
        Some(piece) => Some(before_first(piece, "\""@)),
        None => None,
    }
}

/// The digits of the vector that a key directive states: what follows the
/// first `IV=0x`, up to the next comma.
pub open spec fn stated_iv_digits(line: Seq<char>) -> Option<Seq<char>> {
    match second_piece(line, "IV=0x"@) {
        Some(piece) => Some(before_first(piece, ","@)),
        None => None,
    }
}

/// The vector of a key directive: sixteen zero bytes where it states none,
/// the bytes that its digits write where these are sixteen, and an error for
/// any other digits.
pub open spec fn directive_iv(line: Seq<char>) -> Result<Seq<u8>, DownloadError> {
    match stated_iv_digits(line) {
        None => Ok(zero_iv()),
        Some(digits) => if is_hex_text(digits) && digits.len() == 2 * IV_SIZE {
            Ok(hex_bytes(digits))
        } else {
            Err(DownloadError::InvalidKeyData)
        },
    }
}

/// What an AES-128 key directive sets for the segments after it.
pub open spec fn directive_key(line: Seq<char>, base: Seq<char>) -> Result<
    EncryptionView,
    DownloadError,
> {
    match stated_key_uri(line) {
        None => Err(DownloadError::InvalidKeyUri),
        Some(uri) => match directive_iv(line) {
            Err(e) => Err(e),
            Ok(iv) => match resolved_url(base, uri) {
                None => Err(DownloadError::InvalidKeyUri),
                Some(key_url) => Ok(EncryptionView { key_url, iv }),
            },
        },
    }
}

/// What has been read after some lines of a media playlist: the key in
/// force and the segments met.
pub struct MediaState {
    pub key: Option<EncryptionView>,
    pub segments: Seq<SegmentView>,
}

/// The state after one more line. A key directive for AES-128 puts its key
/// in force, any other key directive ends encryption; a reference is one
/// more segment, under the key in force.
pub open spec fn media_step(before: MediaState, line: Seq<char>, base: Seq<char>) -> Result<
    MediaState,
    DownloadError,
> {
    if is_key_directive(line) {
        if names_aes128(line) {
            match directive_key(line, base) {
                Ok(key) => Ok(MediaState { key: Some(key), segments: before.segments }),
                Err(e) => Err(e),
            }
        } else {
            Ok(MediaState { key: None, segments: before.segments })
        }
    } else if is_reference(line) {
        match resolved_url(base, line) {
            Some(url) => Ok(
                MediaState {
                    key: before.key,
                    segments: before.segments.push(SegmentView { url, encryption: before.key }),
                },
            ),
            None => Err(DownloadError::InvalidUrl),
        }
    } else {
        Ok(before)
    }
}

/// The state after all of `lines`, or the error of the first line that
/// fails.
pub open spec fn media_over(lines: Seq<Seq<char>>, base: Seq<char>) -> Result<
    MediaState,
    DownloadError,
>
    decreases lines.len(),
{
    if lines.len() == 0 {
        Ok(MediaState { key: None, segments: Seq::empty() })
    } else {
        match media_over(lines.drop_last(), base) {
            Ok(before) => media_step(before, lines.last(), base),
            Err(e) => Err(e),
        }
    }
}

/// What `parse_segments` returns for a playlist and the address it came
/// from.
pub open spec fn parsed_segments(playlist: Seq<char>, base: Seq<char>) -> Result<
    Seq<SegmentView>,
    DownloadError,
> {
    if parsed_url(base) is None {
        Err(DownloadError::InvalidUrl)
    } else {
        match media_over(lines_of(playlist), base) {
            Ok(state) => Ok(state.segments),
            Err(e) => Err(e),
        }
    }
}

/// The vector of the key directive `line`.
fn read_iv(line: &[char]) -> (r: Result<[u8; 16], DownloadError>)
    ensures
        match r {
            Ok(iv) => directive_iv(line@) == Ok::<Seq<u8>, DownloadError>(iv@),
            Err(e) => directive_iv(line@) == Err::<Seq<u8>, DownloadError>(e),
        },
{
    let marker = chars_of("IV=0x");
    let comma = chars_of(",");
    let mut iv: [u8; 16] = [0u8; 16];
    match cut_second(line, marker.as_slice()) {
        None => {
            assert(iv@ =~= zero_iv());
            Ok(iv)
        },
        Some(piece) => {
            let digits = cut_before(piece, comma.as_slice());
            let text = string_of(digits);
            match decode_hex(text.as_str()) {
                Err(_) => Err(DownloadError::InvalidKeyData),
                Ok(bytes) => {
                    if bytes.len() != 16 {
                        return Err(DownloadError::InvalidKeyData);
                    }
                    let mut i: usize = 0;
                    while i < 16
                        invariant
                            i <= 16,
                            bytes@.len() == 16,
                            forall|j: int| 0 <= j < i ==> iv@[j] == bytes@[j],
                        decreases 16 - i,
                    {
                        iv[i] = bytes[i];
                        i += 1;
                    }
                    assert(iv@ =~= bytes@);
                    Ok(iv)
                },
            }
        },
    }
}

/// What the AES-128 key directive `line` sets.
fn read_key(line: &[char], base_url: &str) -> (r: Result<EncryptionReference, DownloadError>)
    ensures
        match r {
            Ok(key) => directive_key(line@, base_url@) == Ok::<EncryptionView, DownloadError>(
                key@,
            ),
            Err(e) => directive_key(line@, base_url@) == Err::<EncryptionView, DownloadError>(e),
        },
{
    let marker = chars_of("URI=\"");
    let quote = chars_of("\"");
    match cut_second(line, marker.as_slice()) {
        None => Err(DownloadError::InvalidKeyUri),
        Some(piece) => {
            let uri = string_of(cut_before(piece, quote.as_slice()));
            match read_iv(line) {
                Err(e) => Err(e),
                Ok(iv) => match join_url(base_url, uri.as_str()) {
                    Err(_) => Err(DownloadError::InvalidKeyUri),
                    Ok(key_url) => Ok(EncryptionReference { key_url, iv }),
                },
            }
        },
    }
}

/// The segments that `playlist` names, in its order, each with the key in
/// force where it stands; `base_url` is the address that the playlist came
/// from, against which every reference is resolved.
///
/// A line that begins with `#EXT-X-KEY:` and names `METHOD=AES-128` puts a
/// key in force for the segments after it; a key directive that names any
/// other method, or none, ends encryption for the segments that follow.
/// Every line that is not empty and does not begin with `#` is a segment.
/// The first line that cannot be read ends the reading with its error.
pub fn parse_segments(playlist: &str, base_url: &str) -> (r: Result<Vec<Segment>, DownloadError>)
    ensures
        match r {
            Ok(segments) => parsed_segments(playlist@, base_url@) == Ok::<
                Seq<SegmentView>,
                DownloadError,
            >(segment_views(segments@)),
            Err(e) => parsed_segments(playlist@, base_url@) == Err::<
                Seq<SegmentView>,
                DownloadError,
            >(e),
        },
{
    if parse_url(base_url).is_err() {
        return Err(DownloadError::InvalidUrl);
    }
    let text = chars_of(playlist);
    let lines = split_lines(text.as_slice());
    let directive = chars_of("#EXT-X-KEY:");
    let method = chars_of("METHOD=AES-128");
    let ghost all = line_views(lines@);
    let mut key: Option<EncryptionReference> = None;
    let mut segments: Vec<Segment> = Vec::new();
    let mut i: usize = 0;
    assert(all.subrange(0, 0) =~= Seq::<Seq<char>>::empty());
    assert(segment_views(segments@) =~= Seq::<SegmentView>::empty());
    while i < lines.len()
        invariant
            i <= lines@.len(),
            all == line_views(lines@),
            all == lines_of(playlist@),
            parsed_url(base_url@) is Some,
            directive@ == "#EXT-X-KEY:"@,
            method@ == "METHOD=AES-128"@,
            media_over(all.subrange(0, i as int), base_url@) == Ok::<MediaState, DownloadError>(
                MediaState {
                    key: match key {
                        Some(k) => Some(k@),
                        None => None,
                    },
                    segments: segment_views(segments@),
                },
            ),
        decreases lines@.len() - i,
    {
        let line: &[char] = lines[i].as_slice();
        proof {
            assert(all.subrange(0, i + 1).drop_last() =~= all.subrange(0, i as int));
            assert(all.subrange(0, i + 1).last() == line@);
        }
        let ghost before = segment_views(segments@);
        if starts_with(line, directive.as_slice()) {
            if has(line, method.as_slice()) {
                match read_key(line, base_url) {
                    Ok(k) => {
                        key = Some(k);
                    },
                    Err(e) => {
                        proof {
                            lemma_error_stays(all, i + 1, base_url@);
                        }
                        return Err(e);
                    },
                }
            } else {
                key = None;
            }
        } else if line.len() > 0 && line[0] != '#' {
            let reference = string_of(line);
            match join_url(base_url, reference.as_str()) {
                Ok(url) => {
                    let encryption = match &key {
                        Some(k) => Some(k.clone()),
                        None => None,
                    };
                    let segment = Segment { url, encryption };
                    proof {
                        assert(segment_views(segments@.push(segment)) =~= before.push(segment@));
                    }
                    segments.push(segment);
                },
                Err(_) => {
                    proof {
                        lemma_error_stays(all, i + 1, base_url@);
                    }
                    return Err(DownloadError::InvalidUrl);
                },
            }
        }
        i += 1;
    }
    assert(all.subrange(0, i as int) =~= all);
    Ok(segments)
}

/// Once some lines have failed, more lines change nothing.
pub proof fn lemma_error_stays(lines: Seq<Seq<char>>, n: int, base: Seq<char>)
    requires
        0 <= n <= lines.len(),
        media_over(lines.subrange(0, n), base) is Err,
    ensures
        media_over(lines, base) == media_over(lines.subrange(0, n), base),
    decreases lines.len() - n,
{
    if n == lines.len() {
        assert(lines.subrange(0, n) =~= lines);
    } else {
        assert(lines.subrange(0, n + 1).drop_last() =~= lines.subrange(0, n));
        lemma_error_stays(lines, n + 1, base);
    }
}

/// Where all the lines can be read, so can the first `n` of them, and what
/// these give stays: the segments read by then are the first of all the
/// segments, unchanged.
pub proof fn law_segments_only_grow(lines: Seq<Seq<char>>, n: int, base: Seq<char>)
    requires
        0 <= n <= lines.len(),
        media_over(lines, base) is Ok,
    ensures
        media_over(lines.subrange(0, n), base) is Ok,
        media_over(lines.subrange(0, n), base).unwrap().segments.len() <= media_over(
            lines,
            base,
        ).unwrap().segments.len(),
        media_over(lines, base).unwrap().segments.subrange(
            0,
            media_over(lines.subrange(0, n), base).unwrap().segments.len() as int,
        ) == media_over(lines.subrange(0, n), base).unwrap().segments,
    decreases lines.len() - n,
{
    if media_over(lines.subrange(0, n), base) is Err {
        lemma_error_stays(lines, n, base);
    }
    if n == lines.len() {
        assert(lines.subrange(0, n) =~= lines);
        let all = media_over(lines, base).unwrap().segments;
        assert(all.subrange(0, all.len() as int) =~= all);
    } else {
        law_segments_only_grow(lines, n + 1, base);
        assert(lines.subrange(0, n + 1).drop_last() =~= lines.subrange(0, n));
        let short = media_over(lines.subrange(0, n), base).unwrap().segments;
        let long = media_over(lines.subrange(0, n + 1), base).unwrap().segments;
        let all = media_over(lines, base).unwrap().segments;
        assert(long.subrange(0, short.len() as int) =~= short);
        assert(all.subrange(0, short.len() as int) =~= all.subrange(
            0,
            long.len() as int,
        ).subrange(0, short.len() as int));
    }
}

/// Without a key directive no key is in force and no segment is encrypted.
proof fn lemma_plain_without_directive(lines: Seq<Seq<char>>, base: Seq<char>)
    requires
        forall|i: int| 0 <= i < lines.len() ==> !is_key_directive(#[trigger] lines[i]),
        media_over(lines, base) is Ok,
    ensures
        media_over(lines, base).unwrap().key is None,
        forall|j: int|
            0 <= j < media_over(lines, base).unwrap().segments.len() ==> (
            #[trigger] media_over(lines, base).unwrap().segments[j]).encryption is None,
    decreases lines.len(),
{
    if lines.len() > 0 {
        assert(!is_key_directive(lines[lines.len() - 1]));
        lemma_plain_without_directive(lines.drop_last(), base);
    }
}

/// A playlist without any key directive gives segments none of which is
/// encrypted.
pub proof fn law_no_directive_no_encryption(playlist: Seq<char>, base: Seq<char>)
    requires
        forall|i: int|
            0 <= i < lines_of(playlist).len() ==> !is_key_directive(
                #[trigger] lines_of(playlist)[i],
            ),
        parsed_segments(playlist, base) is Ok,
    ensures
        forall|j: int|
            0 <= j < parsed_segments(playlist, base).unwrap().len() ==> (
            #[trigger] parsed_segments(playlist, base).unwrap()[j]).encryption is None,
{
    lemma_plain_without_directive(lines_of(playlist), base);
}

/// Between one key directive and the next the key in force does not change.
proof fn lemma_key_stays(lines: Seq<Seq<char>>, base: Seq<char>, d: int, n: int)
    requires
        0 <= d < n <= lines.len(),
        forall|j: int| d < j < n ==> !is_key_directive(#[trigger] lines[j]),
        media_over(lines.subrange(0, n), base) is Ok,
    ensures
        media_over(lines.subrange(0, d + 1), base) is Ok,
        media_over(lines.subrange(0, n), base).unwrap().key == media_over(
            lines.subrange(0, d + 1),
            base,
        ).unwrap().key,
    decreases n,
{
    if n > d + 1 {
        assert(lines.subrange(0, n).drop_last() =~= lines.subrange(0, n - 1));
        assert(lines.subrange(0, n).last() == lines[n - 1]);
        lemma_key_stays(lines, base, d, n - 1);
    }
}

/// Every segment between a key directive and the next carries the key of
/// that directive.
///
/// Let line `d` be a key directive for AES-128, let line `i` after it be a
/// reference with no key directive from line `d` to it, and let the whole
/// playlist be readable. Then the segment read from line `i` has the
/// address of line `i`, resolved, and the key and vector of line `d`; and it
/// stands in the result where it stood when line `i` was read, whatever
/// follows.
pub proof fn law_directive_key_reaches_segment(
    lines: Seq<Seq<char>>,
    base: Seq<char>,
    d: int,
    i: int,
)
    requires
        0 <= d < i < lines.len(),
        is_key_directive(lines[d]),
        names_aes128(lines[d]),
        forall|j: int| d < j <= i ==> !is_key_directive(#[trigger] lines[j]),
        is_reference(lines[i]),
        media_over(lines, base) is Ok,
    ensures
        directive_key(lines[d], base) is Ok,
        resolved_url(base, lines[i]) is Some,
        media_over(lines.subrange(0, i + 1), base) is Ok,
        ({
            let at = media_over(lines.subrange(0, i + 1), base).unwrap().segments.len() - 1;
            &&& 0 <= at < media_over(lines, base).unwrap().segments.len()
            &&& media_over(lines, base).unwrap().segments[at] == (SegmentView {
                url: resolved_url(base, lines[i]).unwrap(),
                encryption: Some(directive_key(lines[d], base).unwrap()),
            })
        }),
{
    law_segments_only_grow(lines, i + 1, base);
    law_segments_only_grow(lines, i, base);
    lemma_key_stays(lines, base, d, i);
    assert(lines.subrange(0, d + 1).drop_last() =~= lines.subrange(0, d));
    assert(lines.subrange(0, d + 1).last() == lines[d]);
    assert(lines.subrange(0, i + 1).drop_last() =~= lines.subrange(0, i));
    assert(lines.subrange(0, i + 1).last() == lines[i]);
    assert(!is_key_directive(lines[i]));
    let short = media_over(lines.subrange(0, i + 1), base).unwrap().segments;
    let all = media_over(lines, base).unwrap().segments;
    assert(all.subrange(0, short.len() as int)[short.len() - 1] == all[short.len() - 1]);
}

} // verus!
