//! The feed parser: from a feed document to an ordered candidate list.
//!
//! A feed document is flattened, in document order, into a stream of plain
//! events: every element boundary (with its text, when it has one) and
//! every attribute, as bare strings.  Everything after that is verified:
//! a selection pass picks the `title` element boundaries and the `url` and
//! `type` attributes, and a single fold turns them into candidate slots —
//! every `title` boundary closes the currently open slot, `url`/`type`
//! attributes attach to it, and a slot with no URL is dropped.

use vstd::prelude::*;

verus! {

/// One episode candidate parsed from a feed: title text (a slot may open
/// before any title was seen), enclosure URL, and encoding type.
#[derive(Debug)]
pub struct FeedCandidate {
    pub title: Option<String>,
    pub epurl: String,
    pub enctype: Option<String>,
}

impl Clone for FeedCandidate {
    fn clone(&self) -> (r: Self)
        ensures
            r == *self,
    {
        FeedCandidate {
            title: match &self.title {
                Some(t) => Some(t.clone()),
                None => None,
            },
            epurl: self.epurl.clone(),
            enctype: match &self.enctype {
                Some(e) => Some(e.clone()),
                None => None,
            },
        }
    }
}

/// A feed document fails only when it is not well-formed markup.
#[derive(Clone, Copy, Debug, PartialEq, Eq, Structural)]
pub enum FeedError {
    Malformed,
}

/// The view of one flattened markup event: a tag (0 = element boundary
/// without text, 1 = element boundary with text, 2 = attribute), the
/// element or attribute name, and the associated text or value.
pub open spec fn raw_events_view(v: Seq<(u32, String, String)>) -> Seq<(u32, Seq<char>, Seq<char>)> {
    v.map_values(|p: (u32, String, String)| (p.0, p.1@, p.2@))
}

/// What flattening a document yields: `None` when the document is not
/// well-formed markup, otherwise the document-order stream of every element
/// boundary (with its first text child, when it has one) and every
/// attribute.  A function of the text alone.
pub uninterp spec fn markup_events_of(text: Seq<char>) -> Option<Seq<(u32, Seq<char>, Seq<char>)>>;

/// Relies on roxmltree (Document::parse and the node accessors): parsing
/// either fails, or walks the element tree deterministically in document
/// order; both depend on the text alone.  Every element and attribute is
/// handed out as plain strings; nothing is selected here.
#[verifier::external_body]
fn extract_markup_events(text: &str) -> (r: Option<Vec<(u32, String, String)>>)
    ensures
        match r {
            Some(v) => markup_events_of(text@) == Some(raw_events_view(v@)),
            None => markup_events_of(text@) is None,
        },
{
    let doc = roxmltree::Document::parse(text).ok()?;
    let mut out: Vec<(u32, String, String)> = Vec::new();
    for d in doc.root().descendants() {
        if d.node_type() == roxmltree::NodeType::Element {
            let n = d.tag_name().name().to_string();
            out.push(match d.text() { Some(t) => (1, n, t.to_string()), None => (0, n, String::new()) });
        }
        for a in d.attributes() {
            out.push((2, a.name().to_string(), a.value().to_string()));
        }
    }
    Some(out)
}

/// The view of one feed event: a tag (0 = title element without text,
/// 1 = title element with text, 2 = url attribute, 3 = type attribute) and
/// the associated text.
pub open spec fn events_view(v: Seq<(u32, String)>) -> Seq<(u32, Seq<char>)> {
    v.map_values(|p: (u32, String)| (p.0, p.1@))
}

/// The feed-relevant events of a flattened markup stream, in document
/// order: each `title` element boundary (keeping whether it has text), and
/// each `url` or `type` attribute wherever in the tree it stands.
pub open spec fn select_feed_events(raw: Seq<(u32, Seq<char>, Seq<char>)>) -> Seq<(u32, Seq<char>)>
    decreases raw.len(),
{
    if raw.len() == 0 {
        Seq::empty()
    } else {
        let rest = select_feed_events(raw.drop_last());
        let ev = raw.last();
        if (ev.0 == 0 || ev.0 == 1) && ev.1 == "title"@ {
            rest.push((ev.0, ev.2))
        } else if ev.0 == 2 && ev.1 == "url"@ {
            rest.push((2u32, ev.2))
        } else if ev.0 == 2 && ev.1 == "type"@ {
            rest.push((3u32, ev.2))
        } else {
            rest
        }
    }
}

/// Selects the feed-relevant events from the flattened markup stream.
fn feed_events(raw: &Vec<(u32, String, String)>) -> (r: Vec<(u32, String)>)
    ensures
        events_view(r@) == select_feed_events(raw_events_view(raw@)),
{
    let ghost rv = raw_events_view(raw@);
    let mut out: Vec<(u32, String)> = Vec::new();
    let mut i: usize = 0;
    while i < raw.len()
        invariant
            rv == raw_events_view(raw@),
            i <= raw@.len(),
            events_view(out@) == select_feed_events(rv.subrange(0, i as int)),
        decreases raw@.len() - i,
    {
        proof {
            assert(rv.subrange(0, i + 1 as int).drop_last() =~= rv.subrange(0, i as int));
            assert(rv.subrange(0, i + 1 as int).last() == rv[i as int]);
        }
        let tag = raw[i].0;
        if (tag == 0 || tag == 1) && crate::strutil::str_eq(raw[i].1.as_str(), "title") {
            let c = (tag, raw[i].2.clone());
            proof {
                assert(events_view(out@.push(c)) =~= events_view(out@).push((c.0, c.1@)));
            }
            out.push(c);
        } else if tag == 2 && crate::strutil::str_eq(raw[i].1.as_str(), "url") {
            let c = (2u32, raw[i].2.clone());
            proof {
                assert(events_view(out@.push(c)) =~= events_view(out@).push((c.0, c.1@)));
            }
            out.push(c);
        } else if tag == 2 && crate::strutil::str_eq(raw[i].1.as_str(), "type") {
            let c = (3u32, raw[i].2.clone());
            proof {
                assert(events_view(out@.push(c)) =~= events_view(out@).push((c.0, c.1@)));
            }
            out.push(c);
        }
        i += 1;
    }
    proof {
        assert(rv.subrange(0, raw@.len() as int) =~= rv);
    }
    out
}

/// The state of the single pass: the open slot's fields and the candidates
/// emitted so far (as views: title, URL, type).
pub struct SlotState {
    pub title: Option<Seq<char>>,
    pub url: Option<Seq<char>>,
    pub enc: Option<Seq<char>>,
    pub emitted: Seq<(Option<Seq<char>>, Seq<char>, Option<Seq<char>>)>,
}

/// The empty state before any event.
pub open spec fn initial_state() -> SlotState {
    SlotState { title: None, url: None, enc: None, emitted: Seq::empty() }
}

/// One event applied to the pass state.  A title boundary first flushes the
/// open slot if it has a URL, then (when the element has text) names the new
/// slot; attributes overwrite the open slot's URL or type.
pub open spec fn step_state(st: SlotState, ev: (u32, Seq<char>)) -> SlotState {
    if ev.0 == 0 || ev.0 == 1 {
        let flushed = if st.url is Some {
            SlotState {
                title: None,
                url: None,
                enc: None,
                emitted: st.emitted.push((st.title, st.url->Some_0, st.enc)),
            }
        } else {
            st
        };
        if ev.0 == 1 {
            SlotState { title: Some(ev.1), url: flushed.url, enc: flushed.enc, emitted: flushed.emitted }
        } else {
            flushed
        }
    } else if ev.0 == 2 {
        SlotState { title: st.title, url: Some(ev.1), enc: st.enc, emitted: st.emitted }
    } else if ev.0 == 3 {
        SlotState { title: st.title, url: st.url, enc: Some(ev.1), emitted: st.emitted }
    } else {
        st
    }
}

/// The pass state after a whole event stream.
pub open spec fn run_events(st: SlotState, evs: Seq<(u32, Seq<char>)>) -> SlotState
    decreases evs.len(),
{
    if evs.len() == 0 {
        st
    } else {
        step_state(run_events(st, evs.drop_last()), evs.last())
    }
}

/// The candidates of an event stream: the emitted slots, plus the still-open
/// slot if it has a URL (the document may end without a closing boundary).
pub open spec fn spec_candidates(evs: Seq<(u32, Seq<char>)>) -> Seq<
    (Option<Seq<char>>, Seq<char>, Option<Seq<char>>),
> {
    let fin = run_events(initial_state(), evs);
    if fin.url is Some {
        fin.emitted.push((fin.title, fin.url->Some_0, fin.enc))
    } else {
        fin.emitted
    }
}

/// The view of one candidate.
pub open spec fn cand_view(c: FeedCandidate) -> (Option<Seq<char>>, Seq<char>, Option<Seq<char>>) {
    (
        match c.title {
            Some(t) => Some(t@),
            None => None,
        },
        c.epurl@,
        match c.enctype {
            Some(e) => Some(e@),
            None => None,
        },
    )
}

/// The view of a candidate list.
pub open spec fn cands_view(s: Seq<FeedCandidate>) -> Seq<
    (Option<Seq<char>>, Seq<char>, Option<Seq<char>>),
> {
    s.map_values(|c: FeedCandidate| cand_view(c))
}

/// Spec-level option view of an optional string.
pub open spec fn opt_view(o: Option<String>) -> Option<Seq<char>> {
    match o {
        Some(s) => Some(s@),
        None => None,
    }
}

/// Folds a flattened event stream into the ordered candidate list.
pub fn parse_candidates(events: &Vec<(u32, String)>) -> (r: Vec<FeedCandidate>)
    ensures
        cands_view(r@) == spec_candidates(events_view(events@)),
{
    let ghost evs = events_view(events@);
    let mut title: Option<String> = None;
    let mut url: Option<String> = None;
    let mut enc: Option<String> = None;
    let mut out: Vec<FeedCandidate> = Vec::new();
    let mut i: usize = 0;
    while i < events.len()
        invariant
            i <= events@.len(),
            evs == events_view(events@),
            ({
                let st = run_events(initial_state(), evs.subrange(0, i as int));
                opt_view(title) == st.title && opt_view(url) == st.url && opt_view(enc) == st.enc
                    && cands_view(out@) == st.emitted
            }),
        decreases events@.len() - i,
    {
        proof {
            assert(evs.subrange(0, i + 1 as int).drop_last() =~= evs.subrange(0, i as int));
            assert(evs.subrange(0, i + 1 as int).last() == evs[i as int]);
        }
        let ghost st = run_events(initial_state(), evs.subrange(0, i as int));
        let tag = events[i].0;
        if tag == 0 || tag == 1 {
            if url.is_some() {
                let u = url.unwrap();
                let c = FeedCandidate { title: title, epurl: u, enctype: enc };
                proof {
                    assert(cands_view(out@.push(c)) =~= cands_view(out@).push(cand_view(c)));
                }
                out.push(c);
                title = None;
                url = None;
                enc = None;
            }
            if tag == 1 {
                title = Some(events[i].1.clone());
            }
        } else if tag == 2 {
            url = Some(events[i].1.clone());
        } else if tag == 3 {
            enc = Some(events[i].1.clone());
        }
        i += 1;
    }
    proof {
        assert(evs.subrange(0, events@.len() as int) =~= evs);
    }
    if url.is_some() {
        let u = url.unwrap();
        let c = FeedCandidate { title: title, epurl: u, enctype: enc };
        proof {
            assert(cands_view(out@.push(c)) =~= cands_view(out@).push(cand_view(c)));
        }
        out.push(c);
    }
    out
}

/// Parses a feed document: flattens it (failing only when it is not
/// well-formed markup), selects the title/url/type events, and folds them
/// into candidates.
pub fn parse_feed_text(text: &str) -> (r: Result<Vec<FeedCandidate>, FeedError>)
    ensures
        match r {
            Ok(c) => markup_events_of(text@) matches Some(evs) && cands_view(c@)
                == spec_candidates(select_feed_events(evs)),
            Err(e) => e == FeedError::Malformed && markup_events_of(text@) is None,
        },
{
    match extract_markup_events(text) {
        Some(raw) => Ok(parse_candidates(&feed_events(&raw))),
        None => Err(FeedError::Malformed),
    }
}

} // verus!
