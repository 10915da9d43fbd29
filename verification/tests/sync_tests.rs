use podcatch_rust::episode::Episode;
use podcatch_rust::episode_status::EpisodeStatus;
use podcatch_rust::podcast::{plan_add_podcast, AddPodcastPlan, Podcast};
use podcatch_rust::sync::{
    make_report, partition_episodes, plan_new_episode, plan_update_episode, NewEpisodeAction,
    UpdateAction, UpdateError,
};

fn episode(title: &str, status: EpisodeStatus, epguid: Option<&str>) -> Episode {
    Episode {
        castid: 1,
        episodeid: 1,
        title: title.to_string(),
        epurl: "http://example.com/files/a.mp3".to_string(),
        enctype: String::new(),
        status,
        epguid: epguid.map(|g| g.to_string()),
    }
}

#[test]
fn partition_splits_ready_and_pending() {
    let eps = vec![
        episode("a", EpisodeStatus::Ready, None),
        episode("b", EpisodeStatus::Downloaded, None),
        episode("c", EpisodeStatus::Error, None),
        episode("d", EpisodeStatus::Skipped, None),
        episode("e", EpisodeStatus::Ready, None),
    ];
    let parts = partition_episodes(&eps);
    let new_titles: Vec<&str> = parts.new_episodes.iter().map(|e| e.title.as_str()).collect();
    let upd_titles: Vec<&str> = parts
        .update_candidates
        .iter()
        .map(|e| e.title.as_str())
        .collect();
    assert_eq!(new_titles, ["a", "e"]);
    assert_eq!(upd_titles, ["c", "d"]);
}

#[test]
fn report_aggregates_counts() {
    let eps = vec![
        episode("a", EpisodeStatus::Ready, None),
        episode("c", EpisodeStatus::Error, None),
    ];
    let parts = partition_episodes(&eps);
    let r = make_report(&"Cast".to_string(), 41, 2, 17, &parts);
    assert_eq!(r.castname, "Cast");
    assert_eq!(r.max_epid, 41);
    assert_eq!(r.total_parsed, 2);
    assert_eq!(r.existing_count, 17);
    assert_eq!(r.new_count, 1);
    assert_eq!(r.update_count, 1);
}

#[test]
fn new_episode_without_directory_is_skipped() {
    let epi = episode("t", EpisodeStatus::Ready, None);
    let r = plan_new_episode(&None, &None, &epi);
    assert!(matches!(r, NewEpisodeAction::SkipNoDirectory));
}

#[test]
fn new_episode_with_stored_url_corrects_title() {
    let epi = episode("Corrected", EpisodeStatus::Ready, None);
    let stored = episode("Misspelled", EpisodeStatus::Downloaded, Some("x"));
    let r = plan_new_episode(&Some("/tmp/dir".to_string()), &Some(stored), &epi);
    match r {
        NewEpisodeAction::CorrectTitle(u) => {
            assert_eq!(u.title, "Corrected");
            assert!(matches!(u.status, EpisodeStatus::Downloaded));
        }
        _ => panic!("expected a title correction"),
    }
}

#[test]
fn new_episode_unknown_url_downloads() {
    let epi = episode("t", EpisodeStatus::Ready, None);
    let r = plan_new_episode(&Some("/tmp/dir".to_string()), &None, &epi);
    assert!(matches!(r, NewEpisodeAction::Download));
}

#[test]
fn finalized_episode_is_never_fetched_again() {
    let epi = episode(
        "t",
        EpisodeStatus::Error,
        Some("0123456789abcdef0123456789abcdef"),
    );
    // Whatever the directory and whatever is on disk: no action.
    for dir in [None, Some("/tmp/dir".to_string())] {
        for file_exists in [false, true] {
            let r = plan_update_episode(&epi, &dir, file_exists).unwrap();
            assert!(matches!(r, UpdateAction::NoAction));
        }
    }
}

#[test]
fn pending_episode_with_file_refreshes_identity() {
    let epi = episode("t", EpisodeStatus::Error, Some("short"));
    let r = plan_update_episode(&epi, &Some("/tmp/dir".to_string()), true).unwrap();
    match r {
        UpdateAction::RefreshIdentity(b) => assert_eq!(b, "a.mp3"),
        _ => panic!("expected an identity refresh"),
    }
}

#[test]
fn pending_episode_without_file_redownloads() {
    let epi = episode("t", EpisodeStatus::Error, Some("short"));
    let r = plan_update_episode(&epi, &Some("/tmp/dir".to_string()), false).unwrap();
    match r {
        UpdateAction::Redownload(b) => assert_eq!(b, "a.mp3"),
        _ => panic!("expected a redownload"),
    }
}

#[test]
fn update_without_identity_is_an_error() {
    let epi = episode("t", EpisodeStatus::Error, None);
    let r = plan_update_episode(&epi, &Some("/tmp/dir".to_string()), true);
    assert!(matches!(r, Err(UpdateError::MissingIdentity)));
}

#[test]
fn update_with_unparseable_url_is_an_error() {
    let mut epi = episode("t", EpisodeStatus::Error, Some("short"));
    epi.epurl = "no scheme here".to_string();
    let r = plan_update_episode(&epi, &Some("/tmp/dir".to_string()), true);
    assert!(matches!(r, Err(UpdateError::InvalidUrl)));
}

#[test]
fn update_without_directory_does_nothing() {
    let epi = episode("t", EpisodeStatus::Error, Some("short"));
    let r = plan_update_episode(&epi, &None, false).unwrap();
    assert!(matches!(r, UpdateAction::NoAction));
}

#[test]
fn add_podcast_prefers_existing_records() {
    let by_id = Podcast {
        castid: 4,
        castname: "Existing".to_string(),
        feedurl: "http://e/feed".to_string(),
        directory: None,
    };
    match plan_add_podcast(Some(by_id), None, 9, "New", "http://n/feed", "/tmp/n") {
        AddPodcastPlan::UseExisting(p) => assert_eq!(p.castid, 4),
        AddPodcastPlan::Insert(_) => panic!("expected the stored record"),
    }
    match plan_add_podcast(None, None, 9, "New", "http://n/feed", "/tmp/n") {
        AddPodcastPlan::Insert(p) => {
            assert_eq!(p.castid, 9);
            assert_eq!(p.castname, "New");
            assert_eq!(p.feedurl, "http://n/feed");
            assert_eq!(p.directory, Some("/tmp/n".to_string()));
        }
        AddPodcastPlan::UseExisting(_) => panic!("expected a fresh record"),
    }
}
