use podcatch_rust::catalog::{
    assign_filename_by_key, assign_filename_by_title, known_title_variant, merge_with_db,
    GoogleMusicMetadata, MusicKey,
};

fn track(id: &str, title: &str, filename: Option<&str>) -> GoogleMusicMetadata {
    GoogleMusicMetadata {
        id: id.to_string(),
        title: title.to_string(),
        album: "Album".to_string(),
        artist: "Artist".to_string(),
        track_size: 100,
        album_artist: None,
        track_number: Some(3),
        disc_number: None,
        total_disc_count: None,
        filename: filename.map(|f| f.to_string()),
    }
}

#[test]
fn merge_keeps_stored_filename_and_skips_insert() {
    let listed = track("id1", "Song", None);
    let stored = track("id1", "Song", Some("/music/song.mp3"));
    let (merged, needs_insert) = merge_with_db(&listed, &Some(stored));
    assert!(!needs_insert);
    assert_eq!(merged.filename, Some("/music/song.mp3".to_string()));
    assert_eq!(merged.id, "id1");
}

#[test]
fn merge_of_unknown_track_inserts_it() {
    let listed = track("id2", "Other", None);
    let (merged, needs_insert) = merge_with_db(&listed, &None);
    assert!(needs_insert);
    assert_eq!(merged.id, "id2");
    assert_eq!(merged.filename, None);
}

#[test]
fn title_match_assigns_filename_only_when_unambiguous() {
    let listed = track("id3", "Tune", None);
    let r = assign_filename_by_title(1, &Some(listed.clone()), "/music/tune.mp3").unwrap();
    assert_eq!(r.filename, Some("/music/tune.mp3".to_string()));
    assert_eq!(r.id, "id3");
    // Two stored rows for the title: ambiguous, nothing assigned.
    assert!(assign_filename_by_title(2, &Some(listed.clone()), "/music/tune.mp3").is_none());
    // Already has a filename: nothing assigned.
    let named = track("id3", "Tune", Some("/old.mp3"));
    assert!(assign_filename_by_title(1, &Some(named), "/music/tune.mp3").is_none());
    assert!(assign_filename_by_title(1, &None, "/music/tune.mp3").is_none());
}

#[test]
fn key_match_assigns_filename_once() {
    let matched = track("id4", "Keyed", None);
    let r = assign_filename_by_key(&Some(matched), "/music/keyed.mp3").unwrap();
    assert_eq!(r.filename, Some("/music/keyed.mp3".to_string()));
    let named = track("id4", "Keyed", Some("/done.mp3"));
    assert!(assign_filename_by_key(&Some(named), "/music/x.mp3").is_none());
    assert!(assign_filename_by_key(&None, "/music/x.mp3").is_none());
}

#[test]
fn title_variants_are_recognised() {
    let known = vec!["Song Title".to_string(), "A-B".to_string()];
    // A dash-separated part, trimmed, matches a known title.
    assert!(known_title_variant("Artist - Song Title", &known));
    // Collapsing a doubled dash yields a known title.
    assert!(known_title_variant("A--B", &known));
    assert!(!known_title_variant("Entirely Unknown", &known));
}

#[test]
fn music_key_carries_the_tag_fields() {
    let k = MusicKey {
        artist: "Artist".to_string(),
        album: "Album".to_string(),
        title: "Title".to_string(),
        track_number: Some(7),
    };
    let c = k.clone();
    assert_eq!(c.artist, "Artist");
    assert_eq!(c.track_number, Some(7));
}
