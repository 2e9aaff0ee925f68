//! Finding the master playlist of a video: in the page first, through the
//! player's service second.

use vstd::prelude::*;
use vstd::slice::slice_subrange;
use vstd::string::StringExecFns;
use crate::address::pair_views;
use crate::address::path_segments;
use crate::address::query_pairs;
use crate::address::url_path_segments;
use crate::address::url_query_pairs;
use crate::error::DownloadError;
use crate::json::array_at;
use crate::json::json_array_at;
use crate::json::json_string_at;
use crate::json::json_string_literal;
use crate::json::quote;
use crate::json::string_at;
use crate::number::decimal_chars;
use crate::number::decimal_text;
use crate::text::after_first;
use crate::text::chars_of;
use crate::text::cut_after;
use crate::text::find;
use crate::text::first_occurrence;
use crate::text::lemma_first_occurrence_some;
use crate::text::same;
use crate::text::string_of;

verus! {

broadcast use vstd::slice::group_slice_axioms;

/// The entry address of a video and what the service wants to know of it.
#[derive(Debug)]
pub struct EntryReference {
    pub url: String,
    pub video_id: String,
    pub token: String,
    pub signature: String,
}

/// What an `EntryReference` holds.
pub struct EntryView {
    pub url: Seq<char>,
    pub video_id: Seq<char>,
    pub token: Seq<char>,
    pub signature: Seq<char>,
}

impl View for EntryReference {
    type V = EntryView;

    open spec fn view(&self) -> EntryView {
        EntryView {
            url: self.url@,
            video_id: self.video_id@,
            token: self.token@,
            signature: self.signature@,
        }
    }
}

impl Clone for EntryReference {
    fn clone(&self) -> (r: Self)
        ensures
            r@ == self@,
    {
        EntryReference {
            url: self.url.clone(),
            video_id: self.video_id.clone(),
            token: self.token.clone(),
            signature: self.signature.clone(),
        }
    }
}

/// The value of the first of `pairs` whose name is `name`; the empty text
/// where no pair has that name.
pub open spec fn first_value(pairs: Seq<(Seq<char>, Seq<char>)>, name: Seq<char>) -> Seq<char>
    decreases pairs.len(),
{
    if pairs.len() == 0 {
        Seq::empty()
    } else if pairs[0].0 == name {
        pairs[0].1
    } else {
        first_value(pairs.drop_first(), name)
    }
}

/// What an entry address says: the video's identifier is the last segment of
/// its path, the token and the signature are the query parameters of those
/// names, empty where they are missing.
pub open spec fn entry_of(url: Seq<char>) -> Result<EntryView, DownloadError> {
    match url_path_segments(url) {
        None => Err(DownloadError::InvalidEntryUrl),
        Some(segments) => if segments.len() == 0 {
            Err(DownloadError::InvalidEntryUrl)
        } else {
            match url_query_pairs(url) {
                None => Err(DownloadError::InvalidEntryUrl),
                Some(pairs) => Ok(
                    EntryView {
                        url,
                        video_id: segments.last(),
                        token: first_value(pairs, "token"@),
                        signature: first_value(pairs, "signature"@),
                    },
                ),
            }
        },
    }
}

/// The value of the first of `pairs` whose name is `name`.
fn find_value(pairs: &Vec<(String, String)>, name: &str) -> (value: String)
    ensures
        value@ == first_value(pair_views(pairs@), name@),
{
    let wanted = chars_of(name);
    let ghost all = pair_views(pairs@);
    let mut i: usize = 0;
    assert(all.subrange(0, all.len() as int) =~= all);
    while i < pairs.len()
        invariant
            i <= pairs@.len(),
            all == pair_views(pairs@),
            wanted@ == name@,
            first_value(all, name@) == first_value(all.subrange(i as int, all.len() as int), name@),
        decreases pairs@.len() - i,
    {
        let found = chars_of(pairs[i].0.as_str());
        proof {
            let rest = all.subrange(i as int, all.len() as int);
            assert(rest[0] == all[i as int]);
            assert(rest.drop_first() =~= all.subrange(i + 1, all.len() as int));
        }
        if same(found.as_slice(), wanted.as_slice()) {
            return pairs[i].1.clone();
        }
        i += 1;
    }
    String::new()
}

/// Reads an entry address: see `entry_of`.
pub fn parse_entry(url: &str) -> (r: Result<EntryReference, DownloadError>)
    ensures
        match r {
            Ok(entry) => entry_of(url@) == Ok::<EntryView, DownloadError>(entry@),
            Err(e) => entry_of(url@) == Err::<EntryView, DownloadError>(e),
        },
{
    let segments = match path_segments(url) {
        Ok(Some(segments)) => segments,
        _ => {
            return Err(DownloadError::InvalidEntryUrl);
        },
    };
    if segments.len() == 0 {
        return Err(DownloadError::InvalidEntryUrl);
    }
    let pairs = match query_pairs(url) {
        Ok(pairs) => pairs,
        Err(_) => {
            return Err(DownloadError::InvalidEntryUrl);
        },
    };
    let video_id = segments[segments.len() - 1].clone();
    let token = find_value(&pairs, "token");
    let signature = find_value(&pairs, "signature");
    Ok(EntryReference { url: url.to_owned(), video_id, token, signature })
}

/// Why the page did not give the master playlist.
#[derive(Clone, Copy, Debug, PartialEq, Eq, Structural)]
pub enum FallbackReason {
    /// The page could not be fetched.
    PageUnavailable,
    /// The page does not embed the data block, or the block is not closed.
    MarkerMissing,
    /// The data block is no JSON, or holds no address where one is expected,
    /// or an empty one.
    AddressMissing,
}

/// What the page gave.
#[derive(Debug)]
pub enum Located {
    /// The address of the master playlist.
    Direct(String),
    /// Nothing: the service has to be asked.
    NeedsApiFallback(FallbackReason),
}

/// What a `Located` holds.
pub enum LocatedView {
    Direct(Seq<char>),
    NeedsApiFallback(FallbackReason),
}

impl View for Located {
    type V = LocatedView;

    open spec fn view(&self) -> LocatedView {
        match self {
            Located::Direct(url) => LocatedView::Direct(url@),
            Located::NeedsApiFallback(reason) => LocatedView::NeedsApiFallback(*reason),
        }
    }
}

/// The tag that opens the data block of a page.
pub open spec fn data_block_open() -> Seq<char> {
    "<script id=\"__NEXT_DATA__\" type=\"application/json\">"@
}

/// The tag that closes the data block.
pub open spec fn data_block_close() -> Seq<char> {
    "</script>"@
}

/// Where the data block holds the list of media assets.
pub open spec fn assets_pointer() -> Seq<char> {
    "/props/pageProps/applicationData/mediaAssets"@
}

/// Where the data block holds the address of the first media asset.
pub open spec fn first_asset_pointer() -> Seq<char> {
    "/props/pageProps/applicationData/mediaAssets/0/url"@
}

/// The data block of a page: what stands between the first opening tag and
/// the first closing tag after it.
pub open spec fn data_block(page: Seq<char>) -> Option<Seq<char>> {
    match after_first(page, data_block_open()) {
        None => None,
        Some(rest) => match first_occurrence(rest, data_block_close()) {
            None => None,
            Some(end) => Some(rest.subrange(0, end)),
        },
    }
}

/// What a page gives: the address of its first media asset, where its data
/// block holds a list of assets whose first has an address that is not
/// empty.
pub open spec fn page_manifest(page: Seq<char>) -> LocatedView {
    match data_block(page) {
        None => LocatedView::NeedsApiFallback(FallbackReason::MarkerMissing),
        Some(block) => if json_array_at(block, assets_pointer()) {
            match json_string_at(block, first_asset_pointer()) {
                Some(url) => if url.len() > 0 {
                    LocatedView::Direct(url)
                } else {
                    LocatedView::NeedsApiFallback(FallbackReason::AddressMissing)
                },
                None => LocatedView::NeedsApiFallback(FallbackReason::AddressMissing),
            }
        } else {
            LocatedView::NeedsApiFallback(FallbackReason::AddressMissing)
        },
    }
}

/// Looks for the master playlist in a page: see `page_manifest`.
pub fn locate_in_page(page: &str) -> (r: Located)
    ensures
        r@ == page_manifest(page@),
{
    let text = chars_of(page);
    let open = chars_of("<script id=\"__NEXT_DATA__\" type=\"application/json\">");
    let close = chars_of("</script>");
    let rest = match cut_after(text.as_slice(), open.as_slice()) {
        Some(rest) => rest,
        None => {
            return Located::NeedsApiFallback(FallbackReason::MarkerMissing);
        },
    };
    let end = match find(rest, close.as_slice()) {
        Some(end) => end,
        None => {
            return Located::NeedsApiFallback(FallbackReason::MarkerMissing);
        },
    };
    proof {
        lemma_first_occurrence_some(rest@, close@);
    }
    let block = string_of(slice_subrange(rest, 0, end));
    match array_at(block.as_str(), "/props/pageProps/applicationData/mediaAssets") {
        Ok(true) => {},
        _ => {
            return Located::NeedsApiFallback(FallbackReason::AddressMissing);
        },
    }
    match string_at(block.as_str(), "/props/pageProps/applicationData/mediaAssets/0/url") {
        Ok(Some(url)) => {
            if url.as_str().unicode_len() > 0 {
                Located::Direct(url)
            } else {
                Located::NeedsApiFallback(FallbackReason::AddressMissing)
            }
        },
        _ => Located::NeedsApiFallback(FallbackReason::AddressMissing),
    }
}

/// The address that the answer of the service names: the string at
/// `/streaming/hls/url`, else the one at `/response/streaming/hls/url`,
/// else the one at `/data/streaming/hls/url`.
pub open spec fn api_manifest(body: Seq<char>) -> Option<Seq<char>> {
    match json_string_at(body, "/streaming/hls/url"@) {
        Some(url) => Some(url),
        None => match json_string_at(body, "/response/streaming/hls/url"@) {
            Some(url) => Some(url),
            None => json_string_at(body, "/data/streaming/hls/url"@),
        },
    }
}

/// The string that the JSON document `text` holds at `pointer`.
fn lookup(text: &str, pointer: &str) -> (r: Option<String>)
    ensures
        match r {
            Some(found) => json_string_at(text@, pointer@) == Some(found@),
            None => json_string_at(text@, pointer@) is None,
        },
{
    match string_at(text, pointer) {
        Ok(found) => found,
        Err(_) => None,
    }
}

/// Reads the answer of the service: see `api_manifest`. An answer that names
/// no address fails with `ManifestNotFound`.
pub fn locate_in_api_response(body: &str) -> (r: Result<String, DownloadError>)
    ensures
        match r {
            Ok(url) => api_manifest(body@) == Some(url@),
            Err(e) => e == DownloadError::ManifestNotFound && api_manifest(body@) is None,
        },
{
    if let Some(url) = lookup(body, "/streaming/hls/url") {
        return Ok(url);
    }
    if let Some(url) = lookup(body, "/response/streaming/hls/url") {
        return Ok(url);
    }
    match lookup(body, "/data/streaming/hls/url") {
        Some(url) => Ok(url),
        None => Err(DownloadError::ManifestNotFound),
    }
}

/// The address of the service.
pub open spec fn api_endpoint() -> Seq<char> {
    "https://contentplayer.hotmart.com/video/content"@
}

/// The body of the question put to the service, as JSON text.
pub open spec fn api_body(entry: EntryView, timestamp_ms: u64) -> Seq<char> {
    "{\"captcha\":null,\"locale\":\"en\",\"signature\":"@ + json_string_literal(entry.signature)
        + ",\"timestamp\":"@ + decimal_text(timestamp_ms as nat) + ",\"token\":"@
        + json_string_literal(entry.token) + ",\"videoId\":"@ + json_string_literal(
        entry.video_id,
    ) + "}"@
}

/// A question to the service: where to post it, the headers to add to those
/// of every request, and the body.
#[derive(Debug)]
pub struct ApiRequest {
    pub url: String,
    pub headers: Vec<(String, String)>,
    pub body: String,
}

/// The headers that a question to the service adds.
pub open spec fn api_headers(entry: EntryView) -> Seq<(Seq<char>, Seq<char>)> {
    seq![
        ("Content-Type"@, "application/json"@),
        ("x-hotmart-app"@, "web-player"@),
        ("x-hotmart-key"@, entry.token),
    ]
}

/// `s` as a JSON string literal.
fn quoted(s: &str) -> (r: String)
    ensures
        r@ == json_string_literal(s@),
{
    match quote(s) {
        Ok(literal) => literal,
        Err(_) => String::new(),
    }
}

/// The question to put to the service for `entry` at the time
/// `timestamp_ms`, in milliseconds since the epoch.
pub fn api_request(entry: &EntryReference, timestamp_ms: u64) -> (r: ApiRequest)
    ensures
        r.url@ == api_endpoint(),
        pair_views(r.headers@) == api_headers(entry@),
        r.body@ == api_body(entry@, timestamp_ms),
{
    let mut body = "{\"captcha\":null,\"locale\":\"en\",\"signature\":".to_owned();
    body.append(quoted(entry.signature.as_str()).as_str());
    body.append(",\"timestamp\":");
    body.append(string_of(decimal_chars(timestamp_ms).as_slice()).as_str());
    body.append(",\"token\":");
    body.append(quoted(entry.token.as_str()).as_str());
    body.append(",\"videoId\":");
    body.append(quoted(entry.video_id.as_str()).as_str());
    body.append("}");
    let mut headers: Vec<(String, String)> = Vec::new();
    headers.push(("Content-Type".to_owned(), "application/json".to_owned()));
    headers.push(("x-hotmart-app".to_owned(), "web-player".to_owned()));
    headers.push(("x-hotmart-key".to_owned(), entry.token.clone()));
    assert(pair_views(headers@) =~= api_headers(entry@));
    ApiRequest {
        url: "https://contentplayer.hotmart.com/video/content".to_owned(),
        headers,
        body,
    }
}

/// The headers sent with every request.
pub open spec fn default_header_list() -> Seq<(Seq<char>, Seq<char>)> {
    seq![
        (
            "User-Agent"@,
            "Mozilla/5.0 (Windows NT 10.0; Win64; x64; rv:131.0) Gecko/20100101 Firefox/131.0"@,
        ),
        ("Accept"@, "*/*"@),
        ("Accept-Language"@, "en-US,en;q=0.5"@),
        ("Origin"@, "https://player.hotmart.com"@),
        ("Referer"@, "https://player.hotmart.com/"@),
        ("Connection"@, "keep-alive"@),
    ]
}

/// The headers sent with every request, as names and values.
pub fn default_headers() -> (r: Vec<(String, String)>)
    ensures
        pair_views(r@) == default_header_list(),
{
    let mut headers: Vec<(String, String)> = Vec::new();
    headers.push(
        (
            "User-Agent".to_owned(),
            "Mozilla/5.0 (Windows NT 10.0; Win64; x64; rv:131.0) Gecko/20100101 Firefox/131.0".to_owned(),
        ),
    );
    headers.push(("Accept".to_owned(), "*/*".to_owned()));
    headers.push(("Accept-Language".to_owned(), "en-US,en;q=0.5".to_owned()));
    headers.push(("Origin".to_owned(), "https://player.hotmart.com".to_owned()));
    headers.push(("Referer".to_owned(), "https://player.hotmart.com/".to_owned()));
    headers.push(("Connection".to_owned(), "keep-alive".to_owned()));
    assert(pair_views(headers@) =~= default_header_list());
    headers
}

} // verus!
