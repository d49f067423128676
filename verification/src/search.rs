use vstd::prelude::*;

verus! {

// ---------------------------------------------------------------------------
// Picking the song out of the provider's search results.
// ---------------------------------------------------------------------------

/// One hit of the provider's search response: its result-type discriminator
/// and the canonical page URL of the result.
pub struct SearchHit {
    pub kind: String,
    pub url: String,
}

/// A hit counts as a song exactly when its discriminator is `"song"`.
pub open spec fn is_song_hit(kind: Seq<char>) -> bool {
    kind == "song"@
}

/// The query string sent to the search endpoint: artist and title joined by
/// a single space, nothing else.
pub fn search_query(artist: &str, title: &str) -> (q: String)
    ensures
        q@ == artist@ + " "@ + title@,
{
    let q = String::from_str(artist);
    let q = q.concat(" ");
    q.concat(title)
}

/// The URL of the first hit whose discriminator is `"song"`, in the order
/// the provider returned the hits; `None` when no hit qualifies.  Later song
/// hits and hits of any other kind are ignored.
pub fn select_song_url(hits: &Vec<SearchHit>) -> (r: Option<String>)
    ensures
        match r {
            Some(u) => exists|i: int|
                0 <= i < hits@.len() && #[trigger] is_song_hit(hits@[i].kind@) && u@
                    == hits@[i].url@ && (forall|j: int|
                    0 <= j < i ==> !is_song_hit(#[trigger] hits@[j].kind@)),
            None => forall|i: int|
                0 <= i < hits@.len() ==> !is_song_hit(#[trigger] hits@[i].kind@),
        },
{
    let song = String::from_str("song");
    let mut idx: usize = 0;
    while idx < hits.len()
        invariant
            song@ == "song"@,
            idx <= hits@.len(),
            forall|j: int| 0 <= j < idx ==> !is_song_hit(#[trigger] hits@[j].kind@),
        decreases hits@.len() - idx,
    {
        if hits[idx].kind == song {
            proof {
                assert(is_song_hit(hits@[idx as int].kind@));
            }
            return Some(hits[idx].url.clone());
        }
        idx += 1;
    }
    None
}

} // verus!
