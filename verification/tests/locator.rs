use hotmart_downloader::error::DownloadError;
use hotmart_downloader::locator::api_request;
use hotmart_downloader::locator::default_headers;
use hotmart_downloader::locator::locate_in_api_response;
use hotmart_downloader::locator::locate_in_page;
use hotmart_downloader::locator::parse_entry;
use hotmart_downloader::locator::EntryReference;
use hotmart_downloader::locator::FallbackReason;
use hotmart_downloader::locator::Located;

const OPEN: &str = "<script id=\"__NEXT_DATA__\" type=\"application/json\">";

fn page(json: &str) -> String {
    format!("<html><head></head><body>{}{}</script><script>var x;</script></body></html>", OPEN, json)
}

fn direct(l: Located) -> Option<String> {
    match l {
        Located::Direct(url) => Some(url),
        Located::NeedsApiFallback(_) => None,
    }
}

fn reason(l: Located) -> Option<FallbackReason> {
    match l {
        Located::Direct(_) => None,
        Located::NeedsApiFallback(r) => Some(r),
    }
}

#[test]
fn entry_is_read_from_the_address() {
    let e = parse_entry("https://player.hotmart.com/embed/AbC123xyz?signature=s1g&token=t0k%20en&x=1").unwrap();
    assert_eq!(e.url, "https://player.hotmart.com/embed/AbC123xyz?signature=s1g&token=t0k%20en&x=1");
    assert_eq!(e.video_id, "AbC123xyz");
    assert_eq!(e.token, "t0k en");
    assert_eq!(e.signature, "s1g");
}

#[test]
fn missing_parameters_are_empty() {
    let e = parse_entry("https://player.hotmart.com/embed/vid").unwrap();
    assert_eq!(e.video_id, "vid");
    assert_eq!(e.token, "");
    assert_eq!(e.signature, "");
}

#[test]
fn first_parameter_of_a_name_is_taken() {
    let e = parse_entry("https://h.example/v/id?token=a&token=b&signature=&signature=z").unwrap();
    assert_eq!(e.token, "a");
    assert_eq!(e.signature, "");
}

#[test]
fn trailing_slash_gives_empty_identifier() {
    let e = parse_entry("https://h.example/v/").unwrap();
    assert_eq!(e.video_id, "");
    let root = parse_entry("https://h.example").unwrap();
    assert_eq!(root.video_id, "");
}

#[test]
fn entry_that_is_no_url_is_refused() {
    assert_eq!(parse_entry("not a url").err(), Some(DownloadError::InvalidEntryUrl));
    assert_eq!(parse_entry("").err(), Some(DownloadError::InvalidEntryUrl));
    assert_eq!(parse_entry("/relative/path").err(), Some(DownloadError::InvalidEntryUrl));
}

#[test]
fn entry_without_path_segments_is_refused() {
    assert_eq!(parse_entry("mailto:someone@example.com").err(), Some(DownloadError::InvalidEntryUrl));
    assert_eq!(parse_entry("data:text/plain,hello").err(), Some(DownloadError::InvalidEntryUrl));
}

#[test]
fn cloned_entry_is_equal() {
    let e = parse_entry("https://h.example/v/id?token=a&signature=b").unwrap();
    let c = e.clone();
    assert_eq!(c.url, e.url);
    assert_eq!(c.video_id, e.video_id);
    assert_eq!(c.token, e.token);
    assert_eq!(c.signature, e.signature);
}

#[test]
fn page_names_the_playlist() {
    let p = page("{\"props\":{\"pageProps\":{\"applicationData\":{\"mediaAssets\":[{\"url\":\"https://cdn.example.com/m/master.m3u8\"},{\"url\":\"other\"}]}}}}");
    assert_eq!(direct(locate_in_page(&p)), Some("https://cdn.example.com/m/master.m3u8".to_string()));
}

#[test]
fn page_with_escapes_is_decoded() {
    let p = page("{\"props\":{\"pageProps\":{\"applicationData\":{\"mediaAssets\":[{\"url\":\"https:\\/\\/cdn.example.com\\/a\\u0026b\"}]}}}}");
    assert_eq!(direct(locate_in_page(&p)), Some("https://cdn.example.com/a&b".to_string()));
}

#[test]
fn page_without_marker_falls_back() {
    assert_eq!(reason(locate_in_page("<html></html>")), Some(FallbackReason::MarkerMissing));
    assert_eq!(reason(locate_in_page("")), Some(FallbackReason::MarkerMissing));
    let unclosed = format!("{}{{\"props\":1}}", OPEN);
    assert_eq!(reason(locate_in_page(&unclosed)), Some(FallbackReason::MarkerMissing));
}

#[test]
fn closing_tag_before_the_block_does_not_count() {
    let p = format!("<script>x</script>{}{}</script>", OPEN, "{\"props\":{\"pageProps\":{\"applicationData\":{\"mediaAssets\":[{\"url\":\"u\"}]}}}}");
    assert_eq!(direct(locate_in_page(&p)), Some("u".to_string()));
}

#[test]
fn page_with_bad_data_falls_back() {
    assert_eq!(reason(locate_in_page(&page("{not json"))), Some(FallbackReason::AddressMissing));
    assert_eq!(reason(locate_in_page(&page("{}"))), Some(FallbackReason::AddressMissing));
    assert_eq!(
        reason(locate_in_page(&page("{\"props\":{\"pageProps\":{\"applicationData\":{\"mediaAssets\":[]}}}}"))),
        Some(FallbackReason::AddressMissing)
    );
    assert_eq!(
        reason(locate_in_page(&page("{\"props\":{\"pageProps\":{\"applicationData\":{\"mediaAssets\":[{\"url\":5}]}}}}"))),
        Some(FallbackReason::AddressMissing)
    );
}

#[test]
fn empty_address_falls_back() {
    let p = page("{\"props\":{\"pageProps\":{\"applicationData\":{\"mediaAssets\":[{\"url\":\"\"}]}}}}");
    assert_eq!(reason(locate_in_page(&p)), Some(FallbackReason::AddressMissing));
}

#[test]
fn assets_that_are_no_list_fall_back() {
    let p = page("{\"props\":{\"pageProps\":{\"applicationData\":{\"mediaAssets\":{\"0\":{\"url\":\"u\"}}}}}}");
    assert_eq!(reason(locate_in_page(&p)), Some(FallbackReason::AddressMissing));
}

#[test]
fn api_answer_is_read_in_order() {
    assert_eq!(
        locate_in_api_response("{\"streaming\":{\"hls\":{\"url\":\"https://a/m.m3u8\"}}}"),
        Ok("https://a/m.m3u8".to_string())
    );
    assert_eq!(
        locate_in_api_response("{\"response\":{\"streaming\":{\"hls\":{\"url\":\"https://b/m.m3u8\"}}}}"),
        Ok("https://b/m.m3u8".to_string())
    );
    assert_eq!(
        locate_in_api_response("{\"data\":{\"streaming\":{\"hls\":{\"url\":\"https://c/m.m3u8\"}}}}"),
        Ok("https://c/m.m3u8".to_string())
    );
    let all = "{\"data\":{\"streaming\":{\"hls\":{\"url\":\"c\"}}},\"response\":{\"streaming\":{\"hls\":{\"url\":\"b\"}}},\"streaming\":{\"hls\":{\"url\":\"a\"}}}";
    assert_eq!(locate_in_api_response(all), Ok("a".to_string()));
    let two = "{\"data\":{\"streaming\":{\"hls\":{\"url\":\"c\"}}},\"response\":{\"streaming\":{\"hls\":{\"url\":\"b\"}}}}";
    assert_eq!(locate_in_api_response(two), Ok("b".to_string()));
}

#[test]
fn api_answer_skips_what_is_no_string() {
    let body = "{\"streaming\":{\"hls\":{\"url\":17}},\"data\":{\"streaming\":{\"hls\":{\"url\":\"c\"}}}}";
    assert_eq!(locate_in_api_response(body), Ok("c".to_string()));
}

#[test]
fn api_answer_without_address_is_not_found() {
    assert_eq!(locate_in_api_response("{}"), Err(DownloadError::ManifestNotFound));
    assert_eq!(locate_in_api_response("no json"), Err(DownloadError::ManifestNotFound));
    assert_eq!(locate_in_api_response(""), Err(DownloadError::ManifestNotFound));
    assert_eq!(
        locate_in_api_response("{\"streaming\":{\"hls\":{\"url\":null}}}"),
        Err(DownloadError::ManifestNotFound)
    );
}

#[test]
fn api_request_is_written_exactly() {
    let entry = EntryReference {
        url: "https://player.hotmart.com/embed/vid42?token=tk&signature=sg".to_string(),
        video_id: "vid42".to_string(),
        token: "tk".to_string(),
        signature: "sg".to_string(),
    };
    let r = api_request(&entry, 1730073600123);
    assert_eq!(r.url, "https://contentplayer.hotmart.com/video/content");
    assert_eq!(
        r.body,
        "{\"captcha\":null,\"locale\":\"en\",\"signature\":\"sg\",\"timestamp\":1730073600123,\"token\":\"tk\",\"videoId\":\"vid42\"}"
    );
    assert_eq!(
        r.headers,
        vec![
            ("Content-Type".to_string(), "application/json".to_string()),
            ("x-hotmart-app".to_string(), "web-player".to_string()),
            ("x-hotmart-key".to_string(), "tk".to_string())
        ]
    );
}

#[test]
fn api_request_escapes_and_parses_back() {
    let entry = EntryReference {
        url: "https://h.example/v/x".to_string(),
        video_id: "a\"b\\c".to_string(),
        token: "line\nbreak".to_string(),
        signature: "".to_string(),
    };
    let r = api_request(&entry, 0);
    assert_eq!(
        r.body,
        "{\"captcha\":null,\"locale\":\"en\",\"signature\":\"\",\"timestamp\":0,\"token\":\"line\\nbreak\",\"videoId\":\"a\\\"b\\\\c\"}"
    );
    let parsed: serde_json::Value = serde_json::from_str(&r.body).unwrap();
    assert_eq!(parsed["videoId"].as_str(), Some("a\"b\\c"));
    assert_eq!(parsed["token"].as_str(), Some("line\nbreak"));
    assert_eq!(parsed["signature"].as_str(), Some(""));
    assert_eq!(parsed["timestamp"].as_u64(), Some(0));
    assert!(parsed["captcha"].is_null());
    assert_eq!(parsed["locale"].as_str(), Some("en"));
}

#[test]
fn default_headers_are_fixed() {
    assert_eq!(
        default_headers(),
        vec![
            (
                "User-Agent".to_string(),
                "Mozilla/5.0 (Windows NT 10.0; Win64; x64; rv:131.0) Gecko/20100101 Firefox/131.0".to_string()
            ),
            ("Accept".to_string(), "*/*".to_string()),
            ("Accept-Language".to_string(), "en-US,en;q=0.5".to_string()),
            ("Origin".to_string(), "https://player.hotmart.com".to_string()),
            ("Referer".to_string(), "https://player.hotmart.com/".to_string()),
            ("Connection".to_string(), "keep-alive".to_string())
        ]
    );
}
