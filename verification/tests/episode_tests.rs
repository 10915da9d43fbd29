use podcatch_rust::episode::{basename_filter, DownloadError, Episode};
use podcatch_rust::episode_status::EpisodeStatus;

fn episode(title: &str, epurl: &str) -> Episode {
    Episode {
        castid: 1,
        episodeid: 1,
        title: title.to_string(),
        epurl: epurl.to_string(),
        enctype: "audio/mpeg".to_string(),
        status: EpisodeStatus::Ready,
        epguid: None,
    }
}

#[test]
fn slug_filename_for_music_url() {
    let e = episode("My Great Episode!", "http://example.com/shows/media.mp3");
    assert_eq!(e.url_basename().unwrap(), "my_great_episode.mp3");
}

#[test]
fn basename_filter_drops_and_maps() {
    assert_eq!(basename_filter("My Great Episode!"), "my_great_episode");
    assert_eq!(basename_filter("ABC xyz 012"), "abc_xyz_012");
    assert_eq!(basename_filter("!!!"), "");
    assert_eq!(basename_filter(""), "");
}

#[test]
fn basename_filter_folds_case_with_unicode() {
    // The Kelvin sign lowercases to an ASCII "k" and is kept; the dotted
    // capital I lowercases to "i" plus a combining dot, of which the "i"
    // survives the filter.  Characters whose lowercase stays non-ASCII are
    // dropped.
    assert_eq!(basename_filter("Song \u{212A}"), "song_k");
    assert_eq!(basename_filter("\u{0130}"), "i");
    assert_eq!(basename_filter("\u{00C4} Song"), "_song");
}

#[test]
fn streaming_hosts_use_slugged_title() {
    let e = episode("Show Nine", "https://feeds.acast.com/public/streams/x/y");
    assert_eq!(e.url_basename().unwrap(), "show_nine.mp3");
    let e2 = episode("Show Ten", "https://d123.cloudfront.net/items/10");
    assert_eq!(e2.url_basename().unwrap(), "show_ten.mp3");
}

#[test]
fn path_marker_joins_remaining_segments() {
    let e = episode(
        "irrelevant",
        "http://example.com/files/newrustacean/e001/part/2.mp3",
    );
    assert_eq!(e.url_basename().unwrap(), "e001_part_2.mp3");
}

#[test]
fn plain_url_takes_last_path_segment() {
    let e = episode("irrelevant", "http://example.com/files/episode42.mp3");
    assert_eq!(e.url_basename().unwrap(), "episode42.mp3");
}

#[test]
fn unparseable_url_is_an_error() {
    let e = episode("irrelevant", "not a url at all");
    assert!(matches!(e.url_basename(), Err(DownloadError::InvalidUrl)));
}

#[test]
fn plan_download_requires_directory() {
    let e = episode("t", "http://example.com/files/a.mp3");
    assert!(matches!(
        e.plan_download(false),
        Err(DownloadError::MissingDirectory)
    ));
    assert_eq!(e.plan_download(true).unwrap(), "a.mp3".to_string());
}

#[test]
fn plan_download_rejects_unparseable_url_even_for_known_hosts() {
    let e = episode("My Show", "::::media.mp3");
    assert!(matches!(e.plan_download(true), Err(DownloadError::InvalidUrl)));
}

#[test]
fn finalize_download_fingerprints_and_marks_downloaded() {
    let e = episode("t", "http://example.com/a.mp3");
    let done = e.finalize_download(&b"abc".to_vec());
    assert_eq!(
        done.epguid,
        Some("900150983cd24fb0d6963f7d28e17f72".to_string())
    );
    assert!(matches!(done.status, EpisodeStatus::Downloaded));
    assert!(done.is_finalized());
    assert_eq!(done.title, e.title);
    assert_eq!(done.episodeid, e.episodeid);
}

#[test]
fn completing_a_download_needs_non_empty_content() {
    let e = episode("t", "http://example.com/a.mp3");
    let done = e.complete_download(Some(&b"abc".to_vec())).unwrap();
    assert_eq!(
        done.epguid,
        Some("900150983cd24fb0d6963f7d28e17f72".to_string())
    );
    assert!(matches!(done.status, EpisodeStatus::Downloaded));
    assert!(matches!(
        e.complete_download(Some(&Vec::new())),
        Err(DownloadError::DownloadFailed)
    ));
    assert!(matches!(
        e.complete_download(None),
        Err(DownloadError::DownloadFailed)
    ));
}

#[test]
fn refreshed_identity_keeps_status() {
    let mut e = episode("t", "http://example.com/a.mp3");
    e.status = EpisodeStatus::Error;
    let r = e.with_refreshed_identity(&Vec::new());
    assert_eq!(r.epguid, Some("d41d8cd98f00b204e9800998ecf8427e".to_string()));
    assert!(matches!(r.status, EpisodeStatus::Error));
}

#[test]
fn finalized_identity_is_exactly_32_hex_chars() {
    let mut e = episode("t", "http://example.com/a.mp3");
    e.epguid = Some("0123456789abcdef0123456789ABCDEF".to_string());
    assert!(e.is_finalized());
    e.epguid = Some("0123456789abcdef0123456789abcde".to_string());
    assert!(!e.is_finalized());
    e.epguid = Some("0123456789abcdef0123456789abcdeg".to_string());
    assert!(!e.is_finalized());
    e.epguid = None;
    assert!(!e.is_finalized());
}

#[test]
fn status_names_round_trip() {
    for s in [
        EpisodeStatus::Ready,
        EpisodeStatus::Downloaded,
        EpisodeStatus::Error,
        EpisodeStatus::Skipped,
    ] {
        assert_eq!(EpisodeStatus::from_str(s.to_str()), Some(s));
    }
    assert_eq!(EpisodeStatus::to_str(EpisodeStatus::Ready), "Ready");
    assert_eq!(EpisodeStatus::from_str("Nonsense"), None);
}
