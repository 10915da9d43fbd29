//! Episodes and the download manager's decisions.
//!
//! An episode is one entry of a podcast's persisted list.  The functions here
//! resolve the local filename an episode is stored under (the basename
//! heuristic), and apply a successful fetch to the episode record.

use vstd::prelude::*;

verus! {

use crate::episode_status::EpisodeStatus;
use crate::identity::{is_final_identity, md5_hex, md5_hex_of};
use crate::strutil::{
    contains_seq, ends_with_seq, lower_of, lowercase, matches_at, replaced, rfind_from,
    rfind_seq, push_char, replace_char, str_contains, str_ends_with, str_rfind,
    substring_string,
};
use vstd::string::{StrSliceExecFns, StringExecFns};

/// One persisted episode of a podcast.  The pair (castid, episodeid) is the
/// persisted key; the title is the matching key during reconciliation.
#[derive(Debug)]
pub struct Episode {
    pub castid: i32,
    pub episodeid: i32,
    pub title: String,
    pub epurl: String,
    pub enctype: String,
    pub status: EpisodeStatus,
    pub epguid: Option<String>,
}

impl Clone for Episode {
    fn clone(&self) -> (r: Self)
        ensures
            r == *self,
    {
        Episode {
            castid: self.castid,
            episodeid: self.episodeid,
            title: self.title.clone(),
            epurl: self.epurl.clone(),
            enctype: self.enctype.clone(),
            status: self.status,
            epguid: match &self.epguid {
                Some(g) => Some(g.clone()),
                None => None,
            },
        }
    }
}

/// Why a download cannot proceed or did not succeed.
#[derive(Clone, Copy, Debug, PartialEq, Eq, Structural)]
pub enum DownloadError {
    /// The podcast's download directory does not exist.
    MissingDirectory,
    /// The enclosure URL does not parse, so no filename can be resolved.
    InvalidUrl,
    /// No content ended up on disk (absent or empty file).
    DownloadFailed,
}

/// What one character of a lowercased title contributes to the slugged
/// filename: letters and digits are kept, spaces become underscores,
/// everything else is dropped.
pub open spec fn slug_char(c: char) -> Option<char> {
    if ('a' <= c && c <= 'z') || ('0' <= c && c <= '9') {
        Some(c)
    } else if c == ' ' {
        Some('_')
    } else {
        None
    }
}

/// The slugged form of an already-lowercased title.
pub open spec fn slug_of(t: Seq<char>) -> Seq<char>
    decreases t.len(),
{
    if t.len() == 0 {
        Seq::empty()
    } else {
        let rest = slug_of(t.drop_last());
        match slug_char(t.last()) {
            Some(c) => rest.push(c),
            None => rest,
        }
    }
}

/// Slugs a title: Unicode-lowercase the whole of it, keep letters and
/// digits, map spaces to underscores, drop the rest.
pub fn basename_filter(title: &str) -> (r: String)
    ensures
        r@ == slug_of(lower_of(title@)),
{
    let folded = lowercase(title);
    let len = folded.as_str().unicode_len();
    let mut out = String::new();
    let mut i: usize = 0;
    while i < len
        invariant
            len == folded@.len(),
            folded@ == lower_of(title@),
            i <= len,
            out@ == slug_of(folded@.subrange(0, i as int)),
        decreases len - i,
    {
        let c = folded.as_str().get_char(i);
        if ('a' <= c && c <= 'z') || ('0' <= c && c <= '9') {
            push_char(&mut out, c);
        } else if c == ' ' {
            push_char(&mut out, '_');
        }
        proof {
            assert(folded@.subrange(0, i + 1 as int).drop_last() =~= folded@.subrange(0, i as int));
            assert(folded@.subrange(0, i + 1 as int).last() == folded@[i as int]);
        }
        i += 1;
    }
    proof {
        assert(folded@.subrange(0, len as int) =~= folded@);
    }
    out
}

/// The path component of `url`, when the string parses as a URL.
pub uninterp spec fn url_path_of(url: Seq<char>) -> Option<Seq<char>>;

/// Relies on url::Url::parse and url::Url::path: whether a string parses as
/// a URL, and the path of the parsed URL, depend on the string alone.
#[verifier::external_body]
pub(crate) fn parse_url_path(s: &str) -> (r: Option<String>)
    ensures
        match r {
            Some(p) => url_path_of(s@) == Some(p@),
            None => url_path_of(s@) is None,
        },
{
    match url::Url::parse(s) {
        Ok(u) => Some(u.path().to_string()),
        Err(_) => None,
    }
}

/// URLs that force the slugged-title filename: the fixed music-file suffix
/// and two known streaming-host families.
pub open spec fn slug_named_url(url: Seq<char>) -> bool {
    ends_with_seq(url, "media.mp3"@) || contains_seq(url, "https://feeds.acast.com"@)
        || contains_seq(url, "cloudfront.net"@)
}

/// The basename an episode is stored under, resolved from its URL shape:
/// slugged title for the known streaming hosts, the joined tail after the
/// fixed path marker, or the last path segment of the parsed URL.
pub open spec fn spec_url_basename(title: Seq<char>, url: Seq<char>) -> Option<Seq<char>> {
    if slug_named_url(url) {
        Some(slug_of(lower_of(title)) + ".mp3"@)
    } else if contains_seq(url, "newrustacean/"@) {
        let j = rfind_seq(url, "newrustacean/"@)->Some_0;
        Some(replaced(url.subrange(j + "newrustacean/"@.len(), url.len() as int), '/', '_'))
    } else {
        match url_path_of(url) {
            Some(p) => match rfind_seq(p, "/"@) {
                Some(k) => Some(p.subrange(k + 1, p.len() as int)),
                None => Some(p),
            },
            None => None,
        }
    }
}

proof fn lemma_rfind_from_none(h: Seq<char>, n: Seq<char>, i: int)
    requires
        rfind_from(h, n, i) is None,
    ensures
        forall|k: int| k <= i ==> !matches_at(h, n, k),
    decreases (if i < 0 { 0int } else { i + 1 }),
{
    if i >= 0 {
        lemma_rfind_from_none(h, n, i - 1);
    }
}

proof fn lemma_rfind_from_some(h: Seq<char>, n: Seq<char>, i: int)
    requires
        rfind_from(h, n, i) is Some,
    ensures
        matches_at(h, n, rfind_from(h, n, i)->Some_0),
    decreases (if i < 0 { 0int } else { i + 1 }),
{
    if i >= 0 && !matches_at(h, n, i) {
        lemma_rfind_from_some(h, n, i - 1);
    }
}

/// The last occurrence exists exactly when the needle occurs at all.
proof fn lemma_rfind_contains(h: Seq<char>, n: Seq<char>)
    ensures
        rfind_seq(h, n) is Some <==> contains_seq(h, n),
{
    if rfind_seq(h, n) is Some {
        lemma_rfind_from_some(h, n, h.len() - n.len());
    } else {
        lemma_rfind_from_none(h, n, h.len() - n.len());
        assert(forall|k: int| matches_at(h, n, k) ==> k <= h.len() - n.len());
    }
}

impl Episode {
    /// Resolves the basename heuristic for this episode, failing only when
    /// the URL cannot be parsed and no host rule applies.
    pub fn url_basename(&self) -> (r: Result<String, DownloadError>)
        ensures
            match r {
                Ok(b) => spec_url_basename(self.title@, self.epurl@) == Some(b@),
                Err(e) => e == DownloadError::InvalidUrl && spec_url_basename(
                    self.title@,
                    self.epurl@,
                ) is None,
            },
    {
        let url = self.epurl.as_str();
        if str_ends_with(url, "media.mp3") || str_contains(url, "https://feeds.acast.com")
            || str_contains(url, "cloudfront.net") {
            Ok(basename_filter(self.title.as_str()).concat(".mp3"))
        } else {
            let marker = "newrustacean/";
            match str_rfind(url, marker) {
                Some(j) => {
                    proof {
                        lemma_rfind_from_some(self.epurl@, marker@, self.epurl@.len() - marker@.len());
                    }
                    let mlen = marker.unicode_len();
                    let len = url.unicode_len();
                    let suffix = substring_string(url, j + mlen, len);
                    Ok(replace_char(suffix.as_str(), '/', '_'))
                },
                None => {
                    proof {
                        lemma_rfind_contains(self.epurl@, marker@);
                    }
                    match parse_url_path(url) {
                        Some(p) => {
                            let plen = p.as_str().unicode_len();
                            match str_rfind(p.as_str(), "/") {
                                Some(k) => {
                                    proof {
                                        reveal_strlit("/");
                                        lemma_rfind_from_some(p@, "/"@, p@.len() - "/"@.len());
                                    }
                                    Ok(substring_string(p.as_str(), k + 1, plen))
                                },
                                None => Ok(p),
                            }
                        },
                        None => Err(DownloadError::InvalidUrl),
                    }
                },
            }
        }
    }

    /// The download manager's precondition checks: the directory must exist
    /// and the URL must both resolve to a basename and parse as a URL.
    /// On success, the returned basename is the file the content goes to.
    pub fn plan_download(&self, directory_exists: bool) -> (r: Result<String, DownloadError>)
        ensures
            !directory_exists ==> r == Err::<String, DownloadError>(
                DownloadError::MissingDirectory,
            ),
            directory_exists ==> match r {
                Ok(b) => spec_url_basename(self.title@, self.epurl@) == Some(b@) && url_path_of(
                    self.epurl@,
                ) is Some,
                Err(e) => e == DownloadError::InvalidUrl && (url_path_of(self.epurl@) is None
                    || spec_url_basename(self.title@, self.epurl@) is None),
            },
    {
        if !directory_exists {
            Err(DownloadError::MissingDirectory)
        } else if parse_url_path(self.epurl.as_str()).is_none() {
            Err(DownloadError::InvalidUrl)
        } else {
            self.url_basename()
        }
    }

    /// Applies a successful fetch: the fetched bytes are fingerprinted, the
    /// digest becomes the finalized identity and the episode is marked
    /// `Downloaded`.  The result is always finalized.
    pub fn finalize_download(&self, data: &Vec<u8>) -> (r: Episode)
        ensures
            r.castid == self.castid,
            r.episodeid == self.episodeid,
            r.title == self.title,
            r.epurl == self.epurl,
            r.enctype == self.enctype,
            r.status == EpisodeStatus::Downloaded,
            r.epguid matches Some(g) && g@ == md5_hex_of(data@),
            r.epguid matches Some(g) && is_final_identity(g@),
    {
        let mut r = self.clone();
        r.epguid = Some(md5_hex(data));
        r.status = EpisodeStatus::Downloaded;
        r
    }

    /// Judges a finished fetch attempt: content that is present and
    /// non-empty is fingerprinted and the episode finalized; an absent or
    /// empty file is a failed download.
    pub fn complete_download(&self, content: Option<&Vec<u8>>) -> (r: Result<
        Episode,
        DownloadError,
    >)
        ensures
            match content {
                Some(data) => if data@.len() > 0 {
                    r matches Ok(e) && e.castid == self.castid && e.episodeid == self.episodeid
                        && e.title == self.title && e.epurl == self.epurl && e.enctype
                        == self.enctype && e.status == EpisodeStatus::Downloaded && (e.epguid
                        matches Some(g) && g@ == md5_hex_of(data@) && is_final_identity(g@))
                } else {
                    r == Err::<Episode, DownloadError>(DownloadError::DownloadFailed)
                },
                None => r == Err::<Episode, DownloadError>(DownloadError::DownloadFailed),
            },
    {
        match content {
            Some(data) => {
                if data.len() > 0 {
                    Ok(self.finalize_download(data))
                } else {
                    Err(DownloadError::DownloadFailed)
                }
            },
            None => Err(DownloadError::DownloadFailed),
        }
    }

    /// Refreshes only the identity from content already on disk: the digest
    /// of `data` replaces the stored identity, the status is unchanged.
    pub fn with_refreshed_identity(&self, data: &Vec<u8>) -> (r: Episode)
        ensures
            r.castid == self.castid,
            r.episodeid == self.episodeid,
            r.title == self.title,
            r.epurl == self.epurl,
            r.enctype == self.enctype,
            r.status == self.status,
            r.epguid matches Some(g) && g@ == md5_hex_of(data@),
            r.epguid matches Some(g) && is_final_identity(g@),
    {
        let mut r = self.clone();
        r.epguid = Some(md5_hex(data));
        r
    }

    /// Whether this episode carries the finalized-identity sentinel.
    pub fn is_finalized(&self) -> (r: bool)
        ensures
            r == (self.epguid matches Some(g) && is_final_identity(g@)),
    {
        match &self.epguid {
            Some(g) => crate::identity::is_final_identity_str(g.as_str()),
            None => false,
        }
    }
}

} // verus!
