//! The episode reconciler: candidates against the persisted episode set.
//!
//! Within one podcast the matching key is the episode title.  For each
//! candidate, in document order, the reconciler either creates a new record
//! at the current counter value, re-surfaces a stored episode (mistitled or
//! not yet finalized), suppresses a known problem title, or does nothing —
//! and advances the counter in every case, so sequence numbers track feed
//! position, not match success.

use vstd::prelude::*;

verus! {

use crate::episode::Episode;
use crate::episode_status::EpisodeStatus;
use crate::feed::FeedCandidate;
use crate::identity::is_final_identity;
use crate::podcast::Podcast;
use crate::strutil::{contains_str, list_contains_str, str_eq};
use vstd::string::StringExecFns;

/// The first stored episode with the given title, scanning in insertion
/// order — the lookup a title-keyed store performs.
pub open spec fn sfind(s: Seq<Episode>, t: Seq<char>) -> Option<Episode>
    decreases s.len(),
{
    if s.len() == 0 {
        None
    } else if s[0].title@ == t {
        Some(s[0])
    } else {
        sfind(s.drop_first(), t)
    }
}

proof fn lemma_sfind_first(s: Seq<Episode>, t: Seq<char>, i: int)
    requires
        0 <= i < s.len(),
        s[i].title@ == t,
        forall|j: int| 0 <= j < i ==> s[j].title@ != t,
    ensures
        sfind(s, t) == Some(s[i]),
    decreases i,
{
    if i > 0 {
        lemma_sfind_first(s.drop_first(), t, i - 1);
    }
}

proof fn lemma_sfind_absent(s: Seq<Episode>, t: Seq<char>)
    requires
        forall|j: int| 0 <= j < s.len() ==> s[j].title@ != t,
    ensures
        sfind(s, t) is None,
    decreases s.len(),
{
    if s.len() > 0 {
        lemma_sfind_absent(s.drop_first(), t);
    }
}

/// The persisted episodes of one podcast, keyed by title: lookups return the
/// first stored episode bearing the title.
#[derive(Debug)]
pub struct EpisodeSet {
    eps: Vec<Episode>,
}

impl View for EpisodeSet {
    type V = Seq<Episode>;

    closed spec fn view(&self) -> Seq<Episode> {
        self.eps@
    }
}

impl EpisodeSet {
    /// An empty set.
    pub fn new() -> (r: Self)
        ensures
            r@ == Seq::<Episode>::empty(),
    {
        EpisodeSet { eps: Vec::new() }
    }

    /// Wraps a stored episode list.
    pub fn from_episodes(eps: Vec<Episode>) -> (r: Self)
        ensures
            r@ == eps@,
    {
        EpisodeSet { eps }
    }

    /// How many episodes are stored.
    pub fn len(&self) -> (r: usize)
        ensures
            r == self@.len(),
    {
        self.eps.len()
    }

    /// Adds one episode at the end (later duplicates of a title never
    /// shadow an earlier entry).
    pub fn push(&mut self, ep: Episode)
        ensures
            final(self)@ == old(self)@.push(ep),
    {
        self.eps.push(ep);
    }

    /// The first stored episode with this title, if any.
    pub fn get(&self, t: &str) -> (r: Option<&Episode>)
        ensures
            match r {
                Some(e) => sfind(self@, t@) == Some(*e),
                None => sfind(self@, t@) is None,
            },
    {
        let mut i: usize = 0;
        while i < self.eps.len()
            invariant
                i <= self@.len(),
                forall|j: int| 0 <= j < i ==> self@[j].title@ != t@,
            decreases self@.len() - i,
        {
            if str_eq(self.eps[i].title.as_str(), t) {
                proof {
                    lemma_sfind_first(self@, t@, i as int);
                }
                return Some(&self.eps[i]);
            }
            i += 1;
        }
        proof {
            lemma_sfind_absent(self@, t@);
        }
        None
    }

    /// Whether any stored episode has this title.
    pub fn contains_title(&self, t: &str) -> (r: bool)
        ensures
            r == (sfind(self@, t@) is Some),
    {
        self.get(t).is_some()
    }
}

/// The configurable exception table: titles the reconciler suppresses
/// entirely when they match a stored episode (a known feed-glitch
/// workaround).
#[derive(Debug)]
pub struct TitleExceptions {
    titles: Vec<String>,
}

impl View for TitleExceptions {
    type V = Seq<String>;

    closed spec fn view(&self) -> Seq<String> {
        self.titles@
    }
}

impl TitleExceptions {
    /// An empty table: no title is suppressed.
    pub fn new() -> (r: Self)
        ensures
            r@ == Seq::<String>::empty(),
    {
        TitleExceptions { titles: Vec::new() }
    }

    /// Wraps a list of titles to suppress.
    pub fn from_titles(titles: Vec<String>) -> (r: Self)
        ensures
            r@ == titles@,
    {
        TitleExceptions { titles }
    }

    /// Whether the table holds this title.
    pub fn contains(&self, t: &str) -> (r: bool)
        ensures
            r == contains_str(self@, t@),
    {
        list_contains_str(&self.titles, t)
    }
}

/// The title a candidate is matched under: its own title, or the fixed
/// placeholder when the slot never saw one.
pub open spec fn cand_key(c: FeedCandidate) -> Seq<char> {
    match c.title {
        Some(t) => t@,
        None => "Unknown"@,
    }
}

/// The encoding type recorded for a candidate (empty when absent).
pub open spec fn cand_enc(c: FeedCandidate) -> Seq<char> {
    match c.enctype {
        Some(e) => e@,
        None => Seq::empty(),
    }
}

/// `e` is the new record built from candidate `c` at counter value `epid`.
pub open spec fn is_new_record(pod: Podcast, c: FeedCandidate, epid: i32, e: Episode) -> bool {
    e.castid == pod.castid && e.episodeid == epid && e.title@ == cand_key(c) && e.epurl@
        == c.epurl@ && e.enctype@ == cand_enc(c) && e.status == EpisodeStatus::Ready && e.epguid
        is None
}

/// `e` is the stored episode re-surfaced with its title corrected to
/// `given`; its identity, status and sequence number are untouched.
pub open spec fn is_title_correction(stored: Episode, given: Seq<char>, e: Episode) -> bool {
    e.castid == stored.castid && e.episodeid == stored.episodeid && e.title@ == given && e.epurl
        == stored.epurl && e.enctype == stored.enctype && e.status == stored.status && e.epguid
        == stored.epguid
}

/// What matching a stored episode against the given context title emits:
/// - a title in the exception table: nothing;
/// - a stored title that differs textually from the given one: the stored
///   episode re-surfaced with the given title (same identity);
/// - an identity present but not finalized: the stored episode unchanged
///   (still pending a re-check);
/// - otherwise: nothing (finalized and stable).
pub open spec fn match_post(
    stored: Episode,
    given: Seq<char>,
    exc: Seq<String>,
    r: Option<Episode>,
) -> bool {
    if contains_str(exc, given) {
        r is None
    } else if stored.title@ != given {
        r matches Some(e) && is_title_correction(stored, given, e)
    } else if stored.epguid matches Some(g) && !is_final_identity(g@) {
        r == Some(stored)
    } else {
        r is None
    }
}

/// Matches one stored episode against the context title the caller
/// considers to name the same slot.
pub fn match_stored(stored: &Episode, given: &str, exceptions: &TitleExceptions) -> (r: Option<
    Episode,
>)
    ensures
        match_post(*stored, given@, exceptions@, r),
{
    if exceptions.contains(given) {
        None
    } else if !str_eq(stored.title.as_str(), given) {
        let mut e = stored.clone();
        e.title = given.to_owned();
        Some(e)
    } else {
        match &stored.epguid {
            Some(g) => {
                if !crate::identity::is_final_identity_str(g.as_str()) {
                    Some(stored.clone())
                } else {
                    None
                }
            },
            None => None,
        }
    }
}

/// What one reconciliation step emits for a candidate at counter value
/// `epid`:
/// - title not stored: the new record at `epid`;
/// - title stored: the stored episode matched against the given title
///   (`match_post`);
/// - a candidate that never saw a title and whose placeholder is stored:
///   nothing.
pub open spec fn step_post(
    pod: Podcast,
    c: FeedCandidate,
    existing: Seq<Episode>,
    exc: Seq<String>,
    epid: i32,
    r: Option<Episode>,
) -> bool {
    match sfind(existing, cand_key(c)) {
        None => r matches Some(e) && is_new_record(pod, c, epid, e),
        Some(stored) => match c.title {
            None => r is None,
            Some(t) => match_post(stored, t@, exc, r),
        },
    }
}

/// Reconciles one candidate against the stored set at counter value `epid`.
pub fn reconcile_step(
    pod: &Podcast,
    cand: &FeedCandidate,
    existing: &EpisodeSet,
    exceptions: &TitleExceptions,
    epid: i32,
) -> (r: Option<Episode>)
    ensures
        step_post(*pod, *cand, existing@, exceptions@, epid, r),
{
    let key: &str = match &cand.title {
        Some(t) => t.as_str(),
        None => "Unknown",
    };
    match existing.get(key) {
        None => Some(
            Episode {
                castid: pod.castid,
                episodeid: epid,
                title: match &cand.title {
                    Some(t) => t.clone(),
                    None => String::from_str("Unknown"),
                },
                epurl: cand.epurl.clone(),
                enctype: match &cand.enctype {
                    Some(e) => e.clone(),
                    None => String::new(),
                },
                status: EpisodeStatus::Ready,
                epguid: None,
            },
        ),
        Some(stored) => match &cand.title {
            None => None,
            Some(t) => match_stored(stored, t.as_str(), exceptions),
        },
    }
}

/// The emitted episodes of a per-candidate result sequence, in order.
pub open spec fn filter_emitted(opts: Seq<Option<Episode>>) -> Seq<Episode>
    decreases opts.len(),
{
    if opts.len() == 0 {
        Seq::empty()
    } else {
        let rest = filter_emitted(opts.drop_last());
        match opts.last() {
            Some(e) => rest.push(e),
            None => rest,
        }
    }
}

/// `opts` records, candidate by candidate, what reconciliation emitted, the
/// i-th candidate judged at counter value `start + i`; `r` is the emitted
/// list in document order.
pub open spec fn reconcile_witness(
    pod: Podcast,
    cands: Seq<FeedCandidate>,
    existing: Seq<Episode>,
    exc: Seq<String>,
    start: int,
    r: Seq<Episode>,
    opts: Seq<Option<Episode>>,
) -> bool {
    opts.len() == cands.len() && (forall|i: int|
        0 <= i < cands.len() ==> step_post(
            pod,
            cands[i],
            existing,
            exc,
            (start + i) as i32,
            opts[i],
        )) && r == filter_emitted(opts)
}

/// What `reconcile` returns: some per-candidate record of the run exists.
pub open spec fn reconcile_post(
    pod: Podcast,
    cands: Seq<FeedCandidate>,
    existing: Seq<Episode>,
    exc: Seq<String>,
    start: int,
    r: Seq<Episode>,
) -> bool {
    exists|opts: Seq<Option<Episode>>|
        reconcile_witness(pod, cands, existing, exc, start, r, opts)
}

/// Reconciles a whole candidate list, in document order, against the stored
/// set, starting the sequence-number counter at `start_epid`.  The counter
/// advances once per candidate whatever the step decides.
pub fn reconcile(
    pod: &Podcast,
    cands: &Vec<FeedCandidate>,
    existing: &EpisodeSet,
    exceptions: &TitleExceptions,
    start_epid: i32,
) -> (r: Vec<Episode>)
    requires
        start_epid + cands@.len() <= i32::MAX,
    ensures
        reconcile_post(*pod, cands@, existing@, exceptions@, start_epid as int, r@),
{
    let mut out: Vec<Episode> = Vec::new();
    let ghost mut opts: Seq<Option<Episode>> = Seq::empty();
    let mut i: usize = 0;
    let mut epid: i32 = start_epid;
    while i < cands.len()
        invariant
            i <= cands@.len(),
            start_epid + cands@.len() <= i32::MAX,
            epid == start_epid + i,
            opts.len() == i,
            forall|k: int|
                0 <= k < i ==> step_post(
                    *pod,
                    cands@[k],
                    existing@,
                    exceptions@,
                    (start_epid + k) as i32,
                    opts[k],
                ),
            out@ == filter_emitted(opts),
        decreases cands@.len() - i,
    {
        let step = reconcile_step(pod, &cands[i], existing, exceptions, epid);
        proof {
            let prev = opts;
            opts = opts.push(step);
            assert(opts.drop_last() =~= prev);
            assert(opts.last() == step);
        }
        match step {
            Some(e) => out.push(e),
            None => {},
        }
        i += 1;
        epid += 1;
    }
    proof {
        assert(reconcile_witness(
            *pod,
            cands@,
            existing@,
            exceptions@,
            start_epid as int,
            out@,
            opts,
        ));
    }
    out
}

proof fn lemma_filter_emitted_contains(opts: Seq<Option<Episode>>, i: int)
    requires
        0 <= i < opts.len(),
        opts[i] is Some,
    ensures
        filter_emitted(opts).contains(opts[i]->Some_0),
    decreases opts.len(),
{
    if i == opts.len() - 1 {
        assert(filter_emitted(opts).last() == opts[i]->Some_0);
    } else {
        lemma_filter_emitted_contains(opts.drop_last(), i);
        assert(opts.drop_last()[i] == opts[i]);
        let e = opts[i]->Some_0;
        assert(filter_emitted(opts.drop_last()).contains(e));
        match opts.last() {
            Some(l) => {
                assert(filter_emitted(opts) == filter_emitted(opts.drop_last()).push(l));
                let j = choose|j: int|
                    0 <= j < filter_emitted(opts.drop_last()).len() && filter_emitted(
                        opts.drop_last(),
                    )[j] == e;
                assert(filter_emitted(opts)[j] == e);
            },
            None => {},
        }
    }
}

/// Sequence numbers assigned to candidates strictly increase by feed
/// document order: any two new-episode records of one run (emitted records
/// whose title the stored set does not hold) carry strictly increasing
/// sequence numbers in emission order — whatever every other candidate
/// became (new, update or no-op), since the counter advances once per
/// candidate regardless.
pub proof fn lemma_sequence_numbers_increase(
    pod: Podcast,
    cands: Seq<FeedCandidate>,
    existing: Seq<Episode>,
    exc: Seq<String>,
    start: int,
    r: Seq<Episode>,
    k1: int,
    k2: int,
)
    requires
        reconcile_post(pod, cands, existing, exc, start, r),
        i32::MIN <= start,
        start + cands.len() <= i32::MAX,
        0 <= k1 < k2 < r.len(),
        sfind(existing, r[k1].title@) is None,
        sfind(existing, r[k2].title@) is None,
    ensures
        r[k1].episodeid < r[k2].episodeid,
{
    let opts = choose|opts: Seq<Option<Episode>>|
        reconcile_witness(pod, cands, existing, exc, start, r, opts);
    lemma_filter_emitted_pair(opts, k1, k2);
    let (i1, i2) = choose|i1: int, i2: int|
        0 <= i1 < i2 < opts.len() && opts[i1] == Some(r[k1]) && opts[i2] == Some(r[k2]);
    lemma_emitted_new_record_number(pod, cands, existing, exc, start, opts, i1);
    lemma_emitted_new_record_number(pod, cands, existing, exc, start, opts, i2);
}

/// An emitted record whose title the stored set does not hold can only be a
/// new record, and then carries the counter value of its candidate.
proof fn lemma_emitted_new_record_number(
    pod: Podcast,
    cands: Seq<FeedCandidate>,
    existing: Seq<Episode>,
    exc: Seq<String>,
    start: int,
    opts: Seq<Option<Episode>>,
    i: int,
)
    requires
        opts.len() == cands.len(),
        forall|k: int|
            0 <= k < cands.len() ==> step_post(
                pod,
                cands[k],
                existing,
                exc,
                (start + k) as i32,
                opts[k],
            ),
        i32::MIN <= start,
        start + cands.len() <= i32::MAX,
        0 <= i < opts.len(),
        opts[i] is Some,
        sfind(existing, opts[i]->Some_0.title@) is None,
    ensures
        opts[i]->Some_0.episodeid == start + i,
{
    assert(step_post(pod, cands[i], existing, exc, (start + i) as i32, opts[i]));
    let e = opts[i]->Some_0;
    match sfind(existing, cand_key(cands[i])) {
        None => {
            assert(is_new_record(pod, cands[i], (start + i) as i32, e));
        },
        Some(stored) => {
            // Every emitted record of a matched candidate bears the
            // candidate's own (stored) title, contradicting the premise.
            match cands[i].title {
                None => {
                    assert(false);
                },
                Some(t) => {
                    assert(match_post(stored, t@, exc, opts[i]));
                    assert(e.title@ == t@);
                    assert(sfind(existing, e.title@) is Some);
                },
            }
        },
    }
}

proof fn lemma_filter_emitted_single(opts: Seq<Option<Episode>>, k: int)
    requires
        0 <= k < filter_emitted(opts).len(),
    ensures
        exists|i: int| 0 <= i < opts.len() && opts[i] == Some(filter_emitted(opts)[k]),
    decreases opts.len(),
{
    let f = filter_emitted(opts);
    let fd = filter_emitted(opts.drop_last());
    match opts.last() {
        Some(l) => {
            if k == f.len() - 1 {
                assert(opts[opts.len() - 1] == Some(f[k]));
            } else {
                lemma_filter_emitted_single(opts.drop_last(), k);
                let i = choose|i: int| 0 <= i < opts.drop_last().len() && opts.drop_last()[i]
                    == Some(fd[k]);
                assert(opts[i] == Some(f[k]));
            }
        },
        None => {
            lemma_filter_emitted_single(opts.drop_last(), k);
            let i = choose|i: int| 0 <= i < opts.drop_last().len() && opts.drop_last()[i]
                == Some(fd[k]);
            assert(opts[i] == Some(f[k]));
        },
    }
}

proof fn lemma_filter_emitted_pair(opts: Seq<Option<Episode>>, k1: int, k2: int)
    requires
        0 <= k1 < k2 < filter_emitted(opts).len(),
    ensures
        exists|i1: int, i2: int|
            0 <= i1 < i2 < opts.len() && opts[i1] == Some(filter_emitted(opts)[k1]) && opts[i2]
                == Some(filter_emitted(opts)[k2]),
    decreases opts.len(),
{
    let f = filter_emitted(opts);
    let fd = filter_emitted(opts.drop_last());
    match opts.last() {
        Some(l) => {
            if k2 == f.len() - 1 {
                lemma_filter_emitted_single(opts.drop_last(), k1);
                let i1 = choose|i: int| 0 <= i < opts.drop_last().len() && opts.drop_last()[i]
                    == Some(fd[k1]);
                assert(opts[i1] == Some(f[k1]) && opts[opts.len() - 1] == Some(f[k2]));
                assert(i1 < opts.len() - 1);
            } else {
                lemma_filter_emitted_pair(opts.drop_last(), k1, k2);
                let (i1, i2) = choose|i1: int, i2: int|
                    0 <= i1 < i2 < opts.drop_last().len() && opts.drop_last()[i1] == Some(
                        fd[k1],
                    ) && opts.drop_last()[i2] == Some(fd[k2]);
                assert(opts[i1] == Some(f[k1]) && opts[i2] == Some(f[k2]));
            }
        },
        None => {
            lemma_filter_emitted_pair(opts.drop_last(), k1, k2);
            let (i1, i2) = choose|i1: int, i2: int|
                0 <= i1 < i2 < opts.drop_last().len() && opts.drop_last()[i1] == Some(fd[k1])
                    && opts.drop_last()[i2] == Some(fd[k2]);
            assert(opts[i1] == Some(f[k1]) && opts[i2] == Some(f[k2]));
        },
    }
}

/// Reconciliation is idempotent absent feed or store changes: when a second
/// run would see the same candidates and a store that still holds every
/// stored title and now also every record the first run emitted, no
/// candidate of that second run is judged new — zero new-episode records
/// are created the second time.
pub proof fn lemma_reconcile_idempotent(
    pod: Podcast,
    cands: Seq<FeedCandidate>,
    existing: Seq<Episode>,
    existing2: Seq<Episode>,
    exc: Seq<String>,
    start: int,
    r1: Seq<Episode>,
)
    requires
        reconcile_post(pod, cands, existing, exc, start, r1),
        // the second store still holds every previously stored title ...
        forall|t: Seq<char>| sfind(existing, t) is Some ==> sfind(existing2, t) is Some,
        // ... and every record the first run emitted:
        forall|e: Episode| r1.contains(e) ==> sfind(existing2, #[trigger] e.title@) is Some,
    ensures
        forall|i: int|
            0 <= i < cands.len() ==> sfind(existing2, #[trigger] cand_key(cands[i])) is Some,
{
    let opts1 = choose|opts: Seq<Option<Episode>>|
        reconcile_witness(pod, cands, existing, exc, start, r1, opts);
    assert forall|i: int| 0 <= i < cands.len() implies sfind(
        existing2,
        #[trigger] cand_key(cands[i]),
    ) is Some by {
        let key = cand_key(cands[i]);
        if sfind(existing, key) is None {
            assert(step_post(pod, cands[i], existing, exc, (start + i) as i32, opts1[i]));
            let e = opts1[i]->Some_0;
            assert(e.title@ == key);
            lemma_filter_emitted_contains(opts1, i);
            assert(r1.contains(e));
        }
    }
}

} // verus!
