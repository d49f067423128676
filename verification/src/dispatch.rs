use vstd::prelude::*;

use crate::render::{render_lyrics, rendered};

verus! {

// ---------------------------------------------------------------------------
// Resolution outcomes and the cache-aware dispatch decisions.
//
// The caller owns the network and the filesystem; the decisions — what a
// stage outcome means, whether to resolve at all, and what may be written —
// stand here, so that an attempt that ends in an error can never produce a
// cache entry.
// ---------------------------------------------------------------------------

/// Why a resolution attempt failed: a network or connection failure, a
/// search response of an unexpected shape, or a page whose hydration payload
/// could not be recovered or decoded.  The last is logged distinctly, since
/// it signals that the provider changed its page format.
pub enum ResolveError {
    Transport(String),
    ProviderApi(String),
    Extraction(String),
}

impl ResolveError {
    /// The diagnostic detail carried by the error.
    pub fn detail(&self) -> (d: &String)
        ensures
            match self {
                ResolveError::Transport(s) => d@ == s@,
                ResolveError::ProviderApi(s) => d@ == s@,
                ResolveError::Extraction(s) => d@ == s@,
            },
    {
        match self {
            ResolveError::Transport(s) => s,
            ResolveError::ProviderApi(s) => s,
            ResolveError::Extraction(s) => s,
        }
    }
}

/// The tri-state outcome of one resolution attempt: lyrics were found, the
/// provider legitimately had none, or a failure prevented a determination
/// either way.
pub enum LyricsResult {
    Found(String),
    NotFound,
    Error(ResolveError),
}

/// What follows the search stage: fetch the page of the selected hit, or the
/// attempt is already decided.
pub enum SearchStep {
    FetchPage(String),
    Done(LyricsResult),
}

/// Decides the attempt from the search stage's outcome: a selected URL means
/// the page is fetched next; no qualifying hit is a legitimate `NotFound`;
/// a search failure decides the attempt as that error.
pub fn after_search(outcome: Result<Option<String>, ResolveError>) -> (s: SearchStep)
    ensures
        match outcome {
            Ok(Some(url)) => s is FetchPage && s->FetchPage_0@ == url@,
            Ok(None) => s is Done && s->Done_0 is NotFound,
            Err(e) => s is Done && s->Done_0 is Error && s->Done_0->Error_0 == e,
        },
{
    match outcome {
        Ok(Some(url)) => SearchStep::FetchPage(url),
        Ok(None) => SearchStep::Done(LyricsResult::NotFound),
        Err(e) => SearchStep::Done(LyricsResult::Error(e)),
    }
}

/// Decides the attempt once the lyrics fragment is at hand (or failed to be
/// recovered): a fragment renders into the `Found` text; a failure decides
/// the attempt as that error.
pub fn finish_resolution(fragment: Result<String, ResolveError>) -> (r: LyricsResult)
    ensures
        match fragment {
            Ok(f) => r is Found && r->Found_0@ == rendered(f@),
            Err(e) => r is Error && r->Error_0 == e,
        },
{
    match fragment {
        Ok(f) => LyricsResult::Found(render_lyrics(f.as_str())),
        Err(e) => LyricsResult::Error(e),
    }
}

/// The cache file's name for a track: `{artist} - {title}.txt`, under the
/// configured lyrics directory.  Presence of that file is the sole cache-hit
/// signal.
pub fn cache_file_name(artist: &str, title: &str) -> (r: String)
    ensures
        r@ == artist@ + " - "@ + title@ + ".txt"@,
{
    let r = String::from_str(artist);
    let r = r.concat(" - ");
    let r = r.concat(title);
    r.concat(".txt")
}

/// The dispatcher's first decision: a resolution attempt is made exactly
/// when no cache file exists for the track.
pub fn should_resolve(cache_exists: bool) -> (r: bool)
    ensures
        r == !cache_exists,
{
    !cache_exists
}

/// The dispatcher's last decision: what may be written to the cache.  Only a
/// `Found` outcome yields text; `NotFound` and `Error` write nothing.
pub fn write_payload(result: &LyricsResult) -> (w: Option<&String>)
    ensures
        w is Some <==> result is Found,
        result is Found ==> w->0@ == result->Found_0@,
{
    match result {
        LyricsResult::Found(text) => Some(text),
        _ => None,
    }
}

} // verus!
