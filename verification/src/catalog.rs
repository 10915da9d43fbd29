//! Music-catalog metadata and the decisions of the catalog scan.
//!
//! The catalog service itself (uploads, listing) is an external collaborator;
//! what is decided here is pure: merging a track's metadata with what the
//! store already holds, and whether a scanned local file resolves a stored
//! track's missing filename.

use vstd::prelude::*;

verus! {

use crate::strutil::{
    collapse_pairs, collapse_pairs_str, contains_str, list_contains_str, seqs_view, split_on,
    split_on_char, trim_str, trimmed,
};

/// The identity a tagged audio file is matched under.
#[derive(Debug)]
pub struct MusicKey {
    pub artist: String,
    pub album: String,
    pub title: String,
    pub track_number: Option<i32>,
}

impl Clone for MusicKey {
    fn clone(&self) -> (r: Self)
        ensures
            r == *self,
    {
        MusicKey {
            artist: self.artist.clone(),
            album: self.album.clone(),
            title: self.title.clone(),
            track_number: self.track_number,
        }
    }
}

/// One uploaded track's metadata.
#[derive(Debug)]
pub struct GoogleMusicMetadata {
    pub id: String,
    pub title: String,
    pub album: String,
    pub artist: String,
    pub track_size: i32,
    pub album_artist: Option<String>,
    pub track_number: Option<i32>,
    pub disc_number: Option<i32>,
    pub total_disc_count: Option<i32>,
    pub filename: Option<String>,
}

impl Clone for GoogleMusicMetadata {
    fn clone(&self) -> (r: Self)
        ensures
            r == *self,
    {
        GoogleMusicMetadata {
            id: self.id.clone(),
            title: self.title.clone(),
            album: self.album.clone(),
            artist: self.artist.clone(),
            track_size: self.track_size,
            album_artist: match &self.album_artist {
                Some(a) => Some(a.clone()),
                None => None,
            },
            track_number: self.track_number,
            disc_number: self.disc_number,
            total_disc_count: self.total_disc_count,
            filename: match &self.filename {
                Some(f) => Some(f.clone()),
                None => None,
            },
        }
    }
}

/// `u` is `m` with its filename set to `path`, all other fields untouched.
pub open spec fn with_filename(m: GoogleMusicMetadata, path: Seq<char>, u: GoogleMusicMetadata) -> bool {
    u.id == m.id && u.title == m.title && u.album == m.album && u.artist == m.artist
        && u.track_size == m.track_size && u.album_artist == m.album_artist && u.track_number
        == m.track_number && u.disc_number == m.disc_number && u.total_disc_count
        == m.total_disc_count && (u.filename matches Some(f) && f@ == path)
}

/// Merges a listed track with the store: a stored row wins its filename and
/// needs no insert; an unknown track is kept as listed and must be inserted.
pub fn merge_with_db(m: &GoogleMusicMetadata, stored: &Option<GoogleMusicMetadata>) -> (r: (
    GoogleMusicMetadata,
    bool,
))
    ensures
        match stored {
            Some(s) => !r.1 && r.0.id == m.id && r.0.title == m.title && r.0.album == m.album
                && r.0.artist == m.artist && r.0.track_size == m.track_size && r.0.album_artist
                == m.album_artist && r.0.track_number == m.track_number && r.0.disc_number
                == m.disc_number && r.0.total_disc_count == m.total_disc_count && r.0.filename
                == s.filename,
            None => r.1 && r.0 == *m,
        },
{
    match stored {
        Some(s) => {
            let mut merged = m.clone();
            merged.filename = match &s.filename {
                Some(f) => Some(f.clone()),
                None => None,
            };
            (merged, false)
        },
        None => (m.clone(), true),
    }
}

/// Whether a scanned file resolves a missing filename through its title:
/// only when the store holds exactly one row for the title, the listed track
/// for it is known, and that track has no filename yet.
pub fn assign_filename_by_title(
    rows_for_title: usize,
    listed: &Option<GoogleMusicMetadata>,
    path: &str,
) -> (r: Option<GoogleMusicMetadata>)
    ensures
        match r {
            Some(u) => rows_for_title == 1 && (listed matches Some(m) && m.filename is None
                && with_filename(*m, path@, u)),
            None => !(rows_for_title == 1 && (listed matches Some(m) && m.filename is None)),
        },
{
    if rows_for_title != 1 {
        return None;
    }
    match listed {
        Some(m) => {
            if m.filename.is_some() {
                None
            } else {
                let mut u = m.clone();
                u.filename = Some(path.to_owned());
                Some(u)
            }
        },
        None => None,
    }
}

/// Whether a tagged file resolves a missing filename through its music key:
/// only when the key is known and the matched track has no filename yet.
pub fn assign_filename_by_key(
    matched: &Option<GoogleMusicMetadata>,
    path: &str,
) -> (r: Option<GoogleMusicMetadata>)
    ensures
        match r {
            Some(u) => matched matches Some(m) && m.filename is None && with_filename(
                *m,
                path@,
                u,
            ),
            None => !(matched matches Some(m) && m.filename is None),
        },
{
    match matched {
        Some(m) => {
            if m.filename.is_some() {
                None
            } else {
                let mut u = m.clone();
                u.filename = Some(path.to_owned());
                Some(u)
            }
        },
        None => None,
    }
}

/// A scanned file's tag title counts as a variant of a known title when any
/// dash-separated part of it, whitespace-trimmed, is a known title, or when
/// collapsing doubled dashes turns the whole of it into one.
pub open spec fn spec_known_title_variant(title: Seq<char>, known: Seq<String>) -> bool {
    (exists|i: int|
        0 <= i < split_on(title, '-').len() && contains_str(
            known,
            trimmed(split_on(title, '-')[i]),
        )) || contains_str(known, collapse_pairs(title, '-'))
}

/// Decides whether a tag title is a variant of one of the known titles.
pub fn known_title_variant(title: &str, known: &Vec<String>) -> (r: bool)
    ensures
        r == spec_known_title_variant(title@, known@),
{
    let parts = split_on_char(title, '-');
    let ghost parts_v = seqs_view(parts@);
    let mut i: usize = 0;
    while i < parts.len()
        invariant
            parts_v == split_on(title@, '-'),
            parts_v == seqs_view(parts@),
            i <= parts@.len(),
            forall|j: int| 0 <= j < i ==> !contains_str(known@, trimmed(#[trigger] parts_v[j])),
        decreases parts@.len() - i,
    {
        let t = trim_str(parts[i].as_str());
        if list_contains_str(known, t.as_str()) {
            proof {
                assert(parts_v[i as int] == parts@[i as int]@);
                assert(0 <= i < split_on(title@, '-').len() && contains_str(
                    known@,
                    trimmed(split_on(title@, '-')[i as int]),
                ));
            }
            return true;
        }
        i += 1;
    }
    let collapsed = collapse_pairs_str(title, '-');
    list_contains_str(known, collapsed.as_str())
}

} // verus!
