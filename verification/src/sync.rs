//! The sync orchestrator's per-podcast and per-episode decisions.
//!
//! A run snapshots each podcast's stored episodes and the global counter,
//! reconciles the feed, and then fans out per-episode work.  Everything a
//! concurrent task decides is a function of its immutable inputs, written
//! here; the caller performs the store, network and filesystem actions.

use vstd::prelude::*;

verus! {

use crate::episode::{spec_url_basename, url_path_of, Episode};
use crate::episode_status::EpisodeStatus;
use crate::identity::is_final_identity;
use crate::reconcile::is_title_correction;

/// The emitted episodes that are fresh records (status `Ready`), in order.
pub open spec fn ready_of(s: Seq<Episode>) -> Seq<Episode>
    decreases s.len(),
{
    if s.len() == 0 {
        Seq::empty()
    } else {
        let rest = ready_of(s.drop_last());
        if s.last().status == EpisodeStatus::Ready {
            rest.push(s.last())
        } else {
            rest
        }
    }
}

/// The emitted episodes that are update candidates (status other than
/// `Ready` and `Downloaded`), in order.
pub open spec fn updates_of(s: Seq<Episode>) -> Seq<Episode>
    decreases s.len(),
{
    if s.len() == 0 {
        Seq::empty()
    } else {
        let rest = updates_of(s.drop_last());
        if s.last().status != EpisodeStatus::Ready && s.last().status
            != EpisodeStatus::Downloaded {
            rest.push(s.last())
        } else {
            rest
        }
    }
}

/// A reconciled list split into the two disjoint work lists.
#[derive(Debug)]
pub struct EpisodePartition {
    pub new_episodes: Vec<Episode>,
    pub update_candidates: Vec<Episode>,
}

/// Splits a reconciled episode list into new records and update candidates.
pub fn partition_episodes(eps: &Vec<Episode>) -> (r: EpisodePartition)
    ensures
        r.new_episodes@ == ready_of(eps@),
        r.update_candidates@ == updates_of(eps@),
{
    let mut new_episodes: Vec<Episode> = Vec::new();
    let mut update_candidates: Vec<Episode> = Vec::new();
    let mut i: usize = 0;
    while i < eps.len()
        invariant
            i <= eps@.len(),
            new_episodes@ == ready_of(eps@.subrange(0, i as int)),
            update_candidates@ == updates_of(eps@.subrange(0, i as int)),
        decreases eps@.len() - i,
    {
        proof {
            assert(eps@.subrange(0, i + 1 as int).drop_last() =~= eps@.subrange(0, i as int));
            assert(eps@.subrange(0, i + 1 as int).last() == eps@[i as int]);
        }
        let e = eps[i].clone();
        match e.status {
            EpisodeStatus::Ready => new_episodes.push(e),
            EpisodeStatus::Downloaded => {},
            _ => update_candidates.push(e),
        }
        i += 1;
    }
    proof {
        assert(eps@.subrange(0, eps@.len() as int) =~= eps@);
    }
    EpisodePartition { new_episodes, update_candidates }
}

/// The per-podcast counts a run reports.
#[derive(Debug)]
pub struct SyncReport {
    pub castname: String,
    pub max_epid: i32,
    pub total_parsed: usize,
    pub existing_count: usize,
    pub new_count: usize,
    pub update_count: usize,
}

/// Aggregates one podcast's counts: candidates parsed, episodes stored, and
/// the two work-list sizes.
pub fn make_report(
    castname: &String,
    max_epid: i32,
    total_parsed: usize,
    existing_count: usize,
    parts: &EpisodePartition,
) -> (r: SyncReport)
    ensures
        r.castname == castname,
        r.max_epid == max_epid,
        r.total_parsed == total_parsed,
        r.existing_count == existing_count,
        r.new_count == parts.new_episodes@.len(),
        r.update_count == parts.update_candidates@.len(),
{
    SyncReport {
        castname: castname.clone(),
        max_epid,
        total_parsed,
        existing_count,
        new_count: parts.new_episodes.len(),
        update_count: parts.update_candidates.len(),
    }
}

/// What to do for one fresh record.
#[derive(Debug)]
pub enum NewEpisodeAction {
    /// The podcast has no download directory: nothing to do.
    SkipNoDirectory,
    /// A stored episode already has this URL: persist the title correction
    /// instead of inserting a duplicate row.
    CorrectTitle(Episode),
    /// Nothing is stored under this URL: download, then insert.
    Download,
}

/// Decides one fresh record's task from the podcast's directory and the
/// lookup of the record's URL in the store.
pub fn plan_new_episode(
    directory: &Option<String>,
    stored_by_url: &Option<Episode>,
    epi: &Episode,
) -> (r: NewEpisodeAction)
    ensures
        directory is None ==> r is SkipNoDirectory,
        directory is Some ==> match stored_by_url {
            Some(st) => r matches NewEpisodeAction::CorrectTitle(u) && is_title_correction(
                *st,
                epi.title@,
                u,
            ),
            None => r is Download,
        },
{
    match directory {
        None => NewEpisodeAction::SkipNoDirectory,
        Some(_) => match stored_by_url {
            Some(st) => {
                let mut u = st.clone();
                u.title = epi.title.clone();
                NewEpisodeAction::CorrectTitle(u)
            },
            None => NewEpisodeAction::Download,
        },
    }
}

/// What to do for one update candidate.
#[derive(Debug)]
pub enum UpdateAction {
    /// Finalized, directory-less, or nothing applicable: leave it alone.
    NoAction,
    /// The file is already on disk: re-fingerprint it and persist the
    /// identity, without any fetch.
    RefreshIdentity(String),
    /// The file is absent: download it again into this basename, then
    /// persist the updated record.
    Redownload(String),
}

/// Why an update candidate cannot be processed.
#[derive(Clone, Copy, Debug, PartialEq, Eq, Structural)]
pub enum UpdateError {
    /// No basename can be resolved from the URL.
    InvalidUrl,
    /// The candidate carries no identity at all.
    MissingIdentity,
}

/// Decides one update candidate's task.  In order: a URL that resolves no
/// basename fails; a record without identity fails; without a directory, or
/// once the identity is finalized, nothing is owed; otherwise the identity
/// is refreshed from the file on disk, or the file is fetched again when it
/// is absent and the URL parses.
///
/// An episode whose identity is finalized (exactly 32 hexadecimal
/// characters) never causes a fetch, nor any other action.
pub fn plan_update_episode(
    epi: &Episode,
    directory: &Option<String>,
    file_exists: bool,
) -> (r: Result<UpdateAction, UpdateError>)
    ensures
        match r {
            Ok(a) => spec_url_basename(epi.title@, epi.epurl@) is Some && (epi.epguid matches Some(
                g,
            ) && if directory is None {
                a is NoAction
            } else if is_final_identity(g@) {
                a is NoAction
            } else if file_exists {
                a matches UpdateAction::RefreshIdentity(b) && spec_url_basename(
                    epi.title@,
                    epi.epurl@,
                ) == Some(b@)
            } else if url_path_of(epi.epurl@) is Some {
                a matches UpdateAction::Redownload(b) && spec_url_basename(
                    epi.title@,
                    epi.epurl@,
                ) == Some(b@)
            } else {
                a is NoAction
            }),
            Err(UpdateError::InvalidUrl) => spec_url_basename(epi.title@, epi.epurl@) is None,
            Err(UpdateError::MissingIdentity) => spec_url_basename(epi.title@, epi.epurl@) is Some
                && epi.epguid is None,
        },
        // A finalized episode is never fetched again, nor re-fingerprinted.
        (epi.epguid matches Some(g) && is_final_identity(g@)) ==> match r {
            Ok(a) => a is NoAction,
            Err(e) => e == UpdateError::InvalidUrl,
        },
{
    match epi.url_basename() {
        Err(_) => Err(UpdateError::InvalidUrl),
        Ok(b) => match &epi.epguid {
            None => Err(UpdateError::MissingIdentity),
            Some(g) => match directory {
                None => Ok(UpdateAction::NoAction),
                Some(_) => {
                    if crate::identity::is_final_identity_str(g.as_str()) {
                        Ok(UpdateAction::NoAction)
                    } else if file_exists {
                        Ok(UpdateAction::RefreshIdentity(b))
                    } else if crate::episode::parse_url_path(epi.epurl.as_str()).is_some() {
                        Ok(UpdateAction::Redownload(b))
                    } else {
                        Ok(UpdateAction::NoAction)
                    }
                },
            },
        },
    }
}

} // verus!
