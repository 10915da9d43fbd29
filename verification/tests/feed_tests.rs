use podcatch_rust::feed::{parse_feed_text, FeedError};

#[test]
fn malformed_document_is_a_hard_error() {
    assert!(matches!(
        parse_feed_text("<<< not xml"),
        Err(FeedError::Malformed)
    ));
    assert!(matches!(
        parse_feed_text("<open><unclosed></open>"),
        Err(FeedError::Malformed)
    ));
}

#[test]
fn slot_without_url_is_dropped() {
    let xml = r#"<doc><e><title>No Enclosure</title></e><e><title>Has One</title><f url="http://h/x.mp3"/></e></doc>"#;
    let cands = parse_feed_text(xml).unwrap();
    assert_eq!(cands.len(), 1);
    assert_eq!(cands[0].title.as_deref(), Some("Has One"));
    assert_eq!(cands[0].epurl, "http://h/x.mp3");
}

#[test]
fn url_before_any_title_opens_an_unnamed_slot() {
    let xml = r#"<doc><f url="http://h/first.mp3"/><e><title>Named</title><f url="http://h/second.mp3"/></e></doc>"#;
    let cands = parse_feed_text(xml).unwrap();
    assert_eq!(cands.len(), 2);
    assert_eq!(cands[0].title, None);
    assert_eq!(cands[0].epurl, "http://h/first.mp3");
    assert_eq!(cands[1].title.as_deref(), Some("Named"));
}

#[test]
fn later_attributes_overwrite_the_open_slot() {
    let xml = r#"<doc><e><title>T</title><f url="http://h/a.mp3" type="audio/old"/><g url="http://h/b.mp3" type="audio/new"/></e></doc>"#;
    let cands = parse_feed_text(xml).unwrap();
    assert_eq!(cands.len(), 1);
    assert_eq!(cands[0].epurl, "http://h/b.mp3");
    assert_eq!(cands[0].enctype.as_deref(), Some("audio/new"));
}

#[test]
fn unrelated_attributes_are_ignored() {
    let xml = r#"<doc length="12"><e><title>T</title><f url="http://h/a.mp3" length="99" kind="x"/></e></doc>"#;
    let cands = parse_feed_text(xml).unwrap();
    assert_eq!(cands.len(), 1);
    assert_eq!(cands[0].epurl, "http://h/a.mp3");
    assert_eq!(cands[0].enctype, None);
}
