use hotmart_downloader::error::DownloadError;
use hotmart_downloader::lines::split_lines;
use hotmart_downloader::master::read_bandwidth;
use hotmart_downloader::master::select_best;
use hotmart_downloader::master::select_reference;

const BASE: &str = "https://cdn.example.com/video/master.m3u8";

fn line(s: &str) -> Vec<char> {
    s.chars().collect()
}

#[test]
fn highest_of_distinct_bandwidths_is_selected() {
    let playlist = "#EXTM3U\n\
        #EXT-X-STREAM-INF:BANDWIDTH=500,RESOLUTION=640x360\n\
        low/index.m3u8\n\
        #EXT-X-STREAM-INF:BANDWIDTH=1200,RESOLUTION=1280x720\n\
        high/index.m3u8\n\
        #EXT-X-STREAM-INF:BANDWIDTH=800,RESOLUTION=960x540\n\
        mid/index.m3u8\n";
    assert_eq!(
        select_best(playlist, BASE),
        Ok("https://cdn.example.com/video/high/index.m3u8".to_string())
    );
}

#[test]
fn highest_first_is_kept() {
    let playlist = "#EXT-X-STREAM-INF:BANDWIDTH=1200\nhigh.m3u8\n#EXT-X-STREAM-INF:BANDWIDTH=500\nlow.m3u8\n";
    assert_eq!(select_best(playlist, BASE), Ok("https://cdn.example.com/video/high.m3u8".to_string()));
}

#[test]
fn tie_keeps_first_seen() {
    let playlist = "#EXT-X-STREAM-INF:BANDWIDTH=900\nfirst.m3u8\n#EXT-X-STREAM-INF:BANDWIDTH=900\nsecond.m3u8\n";
    assert_eq!(select_best(playlist, BASE), Ok("https://cdn.example.com/video/first.m3u8".to_string()));
}

#[test]
fn tie_after_lower_keeps_first_of_the_highest() {
    let playlist = "#EXT-X-STREAM-INF:BANDWIDTH=100\na.m3u8\n#EXT-X-STREAM-INF:BANDWIDTH=900\nb.m3u8\n#EXT-X-STREAM-INF:BANDWIDTH=900\nc.m3u8\n";
    assert_eq!(select_best(playlist, BASE), Ok("https://cdn.example.com/video/b.m3u8".to_string()));
}

#[test]
fn metadata_between_directive_and_reference_is_skipped() {
    let playlist = "#EXT-X-STREAM-INF:BANDWIDTH=100\n#EXT-X-SOMETHING\n\na.m3u8\n";
    assert_eq!(select_best(playlist, BASE), Ok("https://cdn.example.com/video/a.m3u8".to_string()));
}

#[test]
fn absolute_reference_is_kept() {
    let playlist = "#EXT-X-STREAM-INF:BANDWIDTH=100\nhttps://other.example.net/x/y.m3u8?q=1\n";
    assert_eq!(select_best(playlist, BASE), Ok("https://other.example.net/x/y.m3u8?q=1".to_string()));
}

#[test]
fn carriage_returns_are_dropped() {
    let playlist = "#EXTM3U\r\n#EXT-X-STREAM-INF:BANDWIDTH=100\r\na.m3u8\r\n";
    assert_eq!(select_best(playlist, BASE), Ok("https://cdn.example.com/video/a.m3u8".to_string()));
}

#[test]
fn no_reference_means_no_variants() {
    assert_eq!(select_best("", BASE), Err(DownloadError::NoVariantsFound));
    assert_eq!(select_best("#EXTM3U\n", BASE), Err(DownloadError::NoVariantsFound));
    assert_eq!(
        select_best("#EXT-X-STREAM-INF:BANDWIDTH=100\n\n", BASE),
        Err(DownloadError::NoVariantsFound)
    );
}

#[test]
fn higher_directive_without_reference_drops_the_candidate() {
    let playlist = "#EXT-X-STREAM-INF:BANDWIDTH=100\na.m3u8\n#EXT-X-STREAM-INF:BANDWIDTH=200\n";
    assert_eq!(select_best(playlist, BASE), Err(DownloadError::NoVariantsFound));
}

#[test]
fn unreadable_bandwidth_does_not_update() {
    let playlist = "#EXT-X-STREAM-INF:BANDWIDTH=100\na.m3u8\n#EXT-X-STREAM-INF:BANDWIDTH=lots\nb.m3u8\n";
    assert_eq!(select_best(playlist, BASE), Ok("https://cdn.example.com/video/a.m3u8".to_string()));
}

#[test]
fn reference_without_any_directive_is_passed_over() {
    assert_eq!(select_best("only.m3u8\n", BASE), Err(DownloadError::NoVariantsFound));
}

#[test]
fn reference_before_the_directive_is_passed_over() {
    let playlist = "stray.m3u8\n#EXT-X-STREAM-INF:BANDWIDTH=0\nzero.m3u8\n";
    assert_eq!(select_best(playlist, BASE), Ok("https://cdn.example.com/video/zero.m3u8".to_string()));
    let higher = "stray.m3u8\n#EXT-X-STREAM-INF:BANDWIDTH=10\nten.m3u8\n";
    assert_eq!(select_best(higher, BASE), Ok("https://cdn.example.com/video/ten.m3u8".to_string()));
}

#[test]
fn zero_bandwidth_counts() {
    let lone = "#EXT-X-STREAM-INF:BANDWIDTH=0\nzero.m3u8\n";
    assert_eq!(select_best(lone, BASE), Ok("https://cdn.example.com/video/zero.m3u8".to_string()));
    let tied = "#EXT-X-STREAM-INF:BANDWIDTH=0\nfirst.m3u8\n#EXT-X-STREAM-INF:BANDWIDTH=0\nsecond.m3u8\n";
    assert_eq!(select_best(tied, BASE), Ok("https://cdn.example.com/video/first.m3u8".to_string()));
    let rising = "#EXT-X-STREAM-INF:BANDWIDTH=0\nzero.m3u8\n#EXT-X-STREAM-INF:BANDWIDTH=1\none.m3u8\n";
    assert_eq!(select_best(rising, BASE), Ok("https://cdn.example.com/video/one.m3u8".to_string()));
}

#[test]
fn directive_without_bandwidth_offers_nothing() {
    let playlist = "#EXT-X-STREAM-INF:RESOLUTION=1x1\nfoo.m3u8\n";
    assert_eq!(select_best(playlist, BASE), Err(DownloadError::NoVariantsFound));
    let later = "#EXT-X-STREAM-INF:RESOLUTION=1x1\nfoo.m3u8\n#EXT-X-STREAM-INF:BANDWIDTH=3\nbar.m3u8\n";
    assert_eq!(select_best(later, BASE), Ok("https://cdn.example.com/video/bar.m3u8".to_string()));
}

#[test]
fn second_reference_after_a_directive_is_passed_over() {
    let playlist = "#EXT-X-STREAM-INF:BANDWIDTH=5\na.m3u8\nb.m3u8\n";
    assert_eq!(select_best(playlist, BASE), Ok("https://cdn.example.com/video/a.m3u8".to_string()));
}

#[test]
fn invalid_base_fails_after_selection() {
    let playlist = "#EXT-X-STREAM-INF:BANDWIDTH=100\na.m3u8\n";
    assert_eq!(select_best(playlist, "not a url"), Err(DownloadError::InvalidUrl));
    assert_eq!(select_best("", "not a url"), Err(DownloadError::NoVariantsFound));
}

#[test]
fn bandwidth_is_read_from_the_attribute_of_that_name() {
    assert_eq!(read_bandwidth(&line("#EXT-X-STREAM-INF:BANDWIDTH=1200")), Some(1200));
    assert_eq!(
        read_bandwidth(&line("#EXT-X-STREAM-INF:PROGRAM-ID=1,BANDWIDTH=750,RESOLUTION=1x1")),
        Some(750)
    );
    assert_eq!(
        read_bandwidth(&line("#EXT-X-STREAM-INF:AVERAGE-BANDWIDTH=300,BANDWIDTH=750")),
        Some(750)
    );
    assert_eq!(
        read_bandwidth(&line("#EXT-X-STREAM-INF:BANDWIDTH=750,AVERAGE-BANDWIDTH=300")),
        Some(750)
    );
    assert_eq!(read_bandwidth(&line("#EXT-X-STREAM-INF:AVERAGE-BANDWIDTH=300")), None);
    assert_eq!(read_bandwidth(&line("#EXT-X-STREAM-INF:RESOLUTION=1x1")), None);
    assert_eq!(read_bandwidth(&line("#EXT-X-STREAM-INF:BANDWIDTH=")), None);
    assert_eq!(read_bandwidth(&line("#EXT-X-STREAM-INF:BANDWIDTH=12=13")), None);
    assert_eq!(read_bandwidth(&line("#EXT-X-STREAM-INF:BANDWIDTH= 12")), None);
    assert_eq!(read_bandwidth(&line("#EXT-X-STREAM-INF: BANDWIDTH=12")), None);
    assert_eq!(read_bandwidth(&line("#EXT-X-STREAM-INF:BANDWIDTH=4294967295")), Some(u32::MAX));
    assert_eq!(read_bandwidth(&line("#EXT-X-STREAM-INF:BANDWIDTH=4294967296")), None);
    assert_eq!(read_bandwidth(&line("#EXT-X-STREAM-INF:BANDWIDTH=x,BANDWIDTH=5")), None);
    assert_eq!(read_bandwidth(&line("#EXT-X-STREAM-INF:BANDWIDTH=0")), Some(0));
    assert_eq!(read_bandwidth(&line("#EXT-X-STREAM-INF")), None);
    assert_eq!(read_bandwidth(&line("#EXT-X-STREAM-INF,BANDWIDTH=5")), None);
    assert_eq!(read_bandwidth(&line("#EXT-X-STREAM-INF:CODECS=\"a:b\",BANDWIDTH=9")), Some(9));
}

#[test]
fn select_reference_gives_line_index() {
    let lines = split_lines(&line("#EXT-X-STREAM-INF:BANDWIDTH=5\na\n#EXT-X-STREAM-INF:BANDWIDTH=9\nb\n"));
    assert_eq!(select_reference(&lines), Some(3));
    let none = split_lines(&line("#EXTM3U\n"));
    assert_eq!(select_reference(&none), None);
}
