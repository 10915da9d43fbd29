//! The lifecycle status of a persisted episode.

use vstd::prelude::*;

verus! {

/// Where an episode stands in its download lifecycle.  A fresh candidate is
/// `Ready`; a fetched and fingerprinted episode is `Downloaded`; `Error` and
/// `Skipped` mark episodes a run gave up on.
#[derive(Clone, Copy, Debug, PartialEq, Eq, Structural)]
pub enum EpisodeStatus {
    Ready,
    Downloaded,
    Error,
    Skipped,
}

/// The canonical name of a status, as it is persisted.
pub open spec fn status_name(s: EpisodeStatus) -> Seq<char> {
    match s {
        EpisodeStatus::Ready => "Ready"@,
        EpisodeStatus::Downloaded => "Downloaded"@,
        EpisodeStatus::Error => "Error"@,
        EpisodeStatus::Skipped => "Skipped"@,
    }
}

/// The status whose canonical name is `t`, if any.
pub open spec fn status_of_name(t: Seq<char>) -> Option<EpisodeStatus> {
    if t == status_name(EpisodeStatus::Ready) {
        Some(EpisodeStatus::Ready)
    } else if t == status_name(EpisodeStatus::Downloaded) {
        Some(EpisodeStatus::Downloaded)
    } else if t == status_name(EpisodeStatus::Error) {
        Some(EpisodeStatus::Error)
    } else if t == status_name(EpisodeStatus::Skipped) {
        Some(EpisodeStatus::Skipped)
    } else {
        None
    }
}

impl EpisodeStatus {
    /// The persisted spelling of this status.
    pub fn to_str(self) -> (r: &'static str)
        ensures
            r@ == status_name(self),
    {
        match self {
            EpisodeStatus::Ready => "Ready",
            EpisodeStatus::Downloaded => "Downloaded",
            EpisodeStatus::Error => "Error",
            EpisodeStatus::Skipped => "Skipped",
        }
    }

    /// Parses a persisted spelling back into a status.
    pub fn from_str(s: &str) -> (r: Option<EpisodeStatus>)
        ensures
            r == status_of_name(s@),
    {
        if crate::strutil::str_eq(s, "Ready") {
            Some(EpisodeStatus::Ready)
        } else if crate::strutil::str_eq(s, "Downloaded") {
            Some(EpisodeStatus::Downloaded)
        } else if crate::strutil::str_eq(s, "Error") {
            Some(EpisodeStatus::Error)
        } else if crate::strutil::str_eq(s, "Skipped") {
            Some(EpisodeStatus::Skipped)
        } else {
            None
        }
    }
}

impl Default for EpisodeStatus {
    /// A newly seen episode starts out `Ready`.
    fn default() -> (r: Self)
        ensures
            r == EpisodeStatus::Ready,
    {
        EpisodeStatus::Ready
    }
}

/// Naming a status and parsing the name back round-trips for every status.
pub proof fn lemma_status_name_round_trip(s: EpisodeStatus)
    ensures
        status_of_name(status_name(s)) == Some(s),
{
    reveal_strlit("Ready");
    reveal_strlit("Downloaded");
    reveal_strlit("Error");
    reveal_strlit("Skipped");
    assert("Ready"@.len() == 5 && "Downloaded"@.len() == 10 && "Error"@.len() == 5
        && "Skipped"@.len() == 7);
    assert("Ready"@[0] == 'R' && "Error"@[0] == 'E');
}

} // verus!
