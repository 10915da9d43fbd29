use podcatch_rust::episode::Episode;
use podcatch_rust::episode_status::EpisodeStatus;
use podcatch_rust::feed::parse_feed_text;
use podcatch_rust::podcast::Podcast;
use podcatch_rust::reconcile::{match_stored, reconcile, EpisodeSet, TitleExceptions};

fn pod() -> Podcast {
    Podcast {
        castid: 1,
        castname: "Test Cast".to_string(),
        feedurl: "http://example.com/feed".to_string(),
        directory: None,
    }
}

fn stored_episode(title: &str, epid: i32, epguid: Option<&str>) -> Episode {
    Episode {
        castid: 1,
        episodeid: epid,
        title: title.to_string(),
        epurl: format!("http://example.com/{}.mp3", epid),
        enctype: "audio/mpeg".to_string(),
        status: EpisodeStatus::Downloaded,
        epguid: epguid.map(|g| g.to_string()),
    }
}

#[test]
fn two_new_records_consecutive_sequence_numbers() {
    let xml = r#"<rss><channel><item><title>Episode One</title><enclosure url="http://h/a.mp3" type="audio/mpeg"/></item><item><title>Episode Two</title><enclosure url="http://h/b.mp3" type="audio/mpeg"/></item></channel></rss>"#;
    let cands = parse_feed_text(xml).unwrap();
    assert_eq!(cands.len(), 2);
    let existing = EpisodeSet::new();
    let exceptions = TitleExceptions::new();
    let eps = reconcile(&pod(), &cands, &existing, &exceptions, 5);
    assert_eq!(eps.len(), 2);
    assert_eq!(eps[0].title, "Episode One");
    assert_eq!(eps[0].episodeid, 5);
    assert_eq!(eps[0].epurl, "http://h/a.mp3");
    assert_eq!(eps[0].enctype, "audio/mpeg");
    assert!(matches!(eps[0].status, EpisodeStatus::Ready));
    assert_eq!(eps[1].title, "Episode Two");
    assert_eq!(eps[1].episodeid, 6);
    assert!(matches!(eps[1].status, EpisodeStatus::Ready));
}

#[test]
fn counter_advances_on_no_op_candidates() {
    // The first candidate matches a finalized stored episode (a no-op), yet
    // the second candidate still gets the next position's number.
    let xml = r#"<doc><e><title>Old Hit</title><f url="http://h/old.mp3"/></e><e><title>Fresh</title><f url="http://h/new.mp3"/></e></doc>"#;
    let cands = parse_feed_text(xml).unwrap();
    let existing = EpisodeSet::from_episodes(vec![stored_episode(
        "Old Hit",
        2,
        Some("0123456789abcdef0123456789abcdef"),
    )]);
    let exceptions = TitleExceptions::new();
    let eps = reconcile(&pod(), &cands, &existing, &exceptions, 10);
    assert_eq!(eps.len(), 1);
    assert_eq!(eps[0].title, "Fresh");
    assert_eq!(eps[0].episodeid, 11);
}

#[test]
fn second_run_creates_no_new_records() {
    let xml = r#"<doc><e><title>A</title><f url="http://h/a.mp3"/></e><e><title>B</title><f url="http://h/b.mp3"/></e></doc>"#;
    let cands = parse_feed_text(xml).unwrap();
    let exceptions = TitleExceptions::new();
    let first = reconcile(&pod(), &cands, &EpisodeSet::new(), &exceptions, 0);
    assert_eq!(first.len(), 2);
    // Persist the first run's records (as downloaded and finalized), then
    // reconcile the same feed output again.
    let mut stored = EpisodeSet::new();
    for e in &first {
        let mut p = e.clone();
        p.status = EpisodeStatus::Downloaded;
        p.epguid = Some("0123456789abcdef0123456789abcdef".to_string());
        stored.push(p);
    }
    let second = reconcile(&pod(), &cands, &stored, &exceptions, 2);
    assert_eq!(second.len(), 0);
}

#[test]
fn update_candidate_takes_context_title() {
    let stored = stored_episode("Old Name", 7, Some("0123456789abcdef0123456789abcdef"));
    let exceptions = TitleExceptions::new();
    let r = match_stored(&stored, "New Name", &exceptions).unwrap();
    assert_eq!(r.title, "New Name");
    assert_eq!(r.episodeid, 7);
    assert_eq!(r.castid, stored.castid);
    assert_eq!(r.epurl, stored.epurl);
    assert_eq!(r.epguid, stored.epguid);
}

#[test]
fn exception_table_suppresses_title() {
    let stored = stored_episode("Glitchy Title", 3, Some("short"));
    let exceptions = TitleExceptions::from_titles(vec!["Glitchy Title".to_string()]);
    assert!(match_stored(&stored, "Glitchy Title", &exceptions).is_none());
    // Without the exception the unfinalized episode would be re-surfaced.
    let none = TitleExceptions::new();
    assert!(match_stored(&stored, "Glitchy Title", &none).is_some());
}

#[test]
fn unfinalized_stored_episode_is_resurfaced_unchanged() {
    let stored = stored_episode("Pending", 4, Some("not-a-hash"));
    let exceptions = TitleExceptions::new();
    let r = match_stored(&stored, "Pending", &exceptions).unwrap();
    assert_eq!(r.title, "Pending");
    assert_eq!(r.episodeid, 4);
    assert_eq!(r.epguid, Some("not-a-hash".to_string()));
}

#[test]
fn finalized_stored_episode_is_stable() {
    let stored = stored_episode("Done", 4, Some("0123456789abcdef0123456789abcdef"));
    let exceptions = TitleExceptions::new();
    assert!(match_stored(&stored, "Done", &exceptions).is_none());
}

#[test]
fn stored_episode_without_identity_is_left_alone() {
    let stored = stored_episode("No Guid", 9, None);
    let exceptions = TitleExceptions::new();
    assert!(match_stored(&stored, "No Guid", &exceptions).is_none());
}

#[test]
fn empty_document_yields_no_candidates() {
    let cands = parse_feed_text("<doc/>").unwrap();
    assert_eq!(cands.len(), 0);
}

#[test]
fn exception_applies_only_to_stored_titles() {
    // An exception title that is not stored yet is still created as a new
    // record: the suppression is a workaround for re-matching, not a ban.
    let xml = r#"<doc><e><title>Glitchy Title</title><f url="http://h/g.mp3"/></e></doc>"#;
    let cands = parse_feed_text(xml).unwrap();
    let exceptions = TitleExceptions::from_titles(vec!["Glitchy Title".to_string()]);
    let eps = reconcile(&pod(), &cands, &EpisodeSet::new(), &exceptions, 1);
    assert_eq!(eps.len(), 1);
    assert_eq!(eps[0].title, "Glitchy Title");
    // Once stored, the same candidate is suppressed.
    let stored = EpisodeSet::from_episodes(vec![stored_episode("Glitchy Title", 1, Some("x"))]);
    let eps2 = reconcile(&pod(), &cands, &stored, &exceptions, 2);
    assert_eq!(eps2.len(), 0);
}

#[test]
fn titleless_candidate_matching_stored_placeholder_is_dropped() {
    let xml = r#"<doc><f url="http://h/first.mp3"/></doc>"#;
    let cands = parse_feed_text(xml).unwrap();
    assert_eq!(cands.len(), 1);
    assert_eq!(cands[0].title, None);
    // The placeholder title is already stored (and unfinalized), yet a
    // candidate that never saw a title emits nothing.
    let stored = EpisodeSet::from_episodes(vec![stored_episode("Unknown", 1, Some("short"))]);
    let eps = reconcile(&pod(), &cands, &stored, &TitleExceptions::new(), 2);
    assert_eq!(eps.len(), 0);
    // Against an empty store it is a new record under the placeholder.
    let eps2 = reconcile(&pod(), &cands, &EpisodeSet::new(), &TitleExceptions::new(), 2);
    assert_eq!(eps2.len(), 1);
    assert_eq!(eps2[0].title, "Unknown");
}

#[test]
fn two_candidates_sharing_a_fresh_title_both_become_new_records() {
    // Title-keyed matching has no secondary disambiguation: both slots get
    // records, at consecutive numbers, under the same title.
    let xml = r#"<doc><e><title>Same</title><f url="http://h/a.mp3"/></e><e><title>Same</title><f url="http://h/b.mp3"/></e></doc>"#;
    let cands = parse_feed_text(xml).unwrap();
    let eps = reconcile(&pod(), &cands, &EpisodeSet::new(), &TitleExceptions::new(), 0);
    assert_eq!(eps.len(), 2);
    assert_eq!(eps[0].title, "Same");
    assert_eq!(eps[1].title, "Same");
    assert_eq!(eps[0].episodeid, 0);
    assert_eq!(eps[1].episodeid, 1);
}

#[test]
fn lookup_returns_first_entry_for_title() {
    let a = stored_episode("Same", 1, None);
    let b = stored_episode("Same", 2, None);
    let set = EpisodeSet::from_episodes(vec![a, b]);
    let got = set.get("Same").unwrap();
    assert_eq!(got.episodeid, 1);
    assert!(set.get("Other").is_none());
    assert!(set.contains_title("Same"));
    assert_eq!(set.len(), 2);
}
