//! Podcasts and the decision of an explicit add operation.

use vstd::prelude::*;

verus! {

/// One tracked feed: id, display name, feed URL and the optional local
/// directory its downloads go to.
#[derive(Debug)]
pub struct Podcast {
    pub castid: i32,
    pub castname: String,
    pub feedurl: String,
    pub directory: Option<String>,
}

impl Clone for Podcast {
    fn clone(&self) -> (r: Self)
        ensures
            r == *self,
    {
        Podcast {
            castid: self.castid,
            castname: self.castname.clone(),
            feedurl: self.feedurl.clone(),
            directory: match &self.directory {
                Some(d) => Some(d.clone()),
                None => None,
            },
        }
    }
}

/// What an add operation should do, decided from the two store lookups.
#[derive(Debug)]
pub enum AddPodcastPlan {
    /// A podcast with this id or feed URL is already stored; use it.
    UseExisting(Podcast),
    /// Nothing matches; this fresh record is to be inserted.
    Insert(Podcast),
}

/// Decides an add operation: an existing record (by id first, then by feed
/// URL) wins; otherwise a fresh record is built from the given fields.
pub fn plan_add_podcast(
    by_index: Option<Podcast>,
    by_feedurl: Option<Podcast>,
    castid: i32,
    castname: &str,
    feedurl: &str,
    directory: &str,
) -> (r: AddPodcastPlan)
    ensures
        match by_index {
            Some(p) => r matches AddPodcastPlan::UseExisting(q) && q == p,
            None => match by_feedurl {
                Some(p) => r matches AddPodcastPlan::UseExisting(q) && q == p,
                None => r matches AddPodcastPlan::Insert(q) && q.castid == castid && q.castname@
                    == castname@ && q.feedurl@ == feedurl@ && (q.directory matches Some(d) && d@
                    == directory@),
            },
        },
{
    match by_index {
        Some(p) => AddPodcastPlan::UseExisting(p),
        None => match by_feedurl {
            Some(p) => AddPodcastPlan::UseExisting(p),
            None => AddPodcastPlan::Insert(
                Podcast {
                    castid,
                    castname: castname.to_owned(),
                    feedurl: feedurl.to_owned(),
                    directory: Some(directory.to_owned()),
                },
            ),
        },
    }
}

} // verus!
