use vstd::prelude::*;

verus! {

// ---------------------------------------------------------------------------
// Change detection and de-duplication.
//
// Player events carry no track of their own; on each relevant event the
// caller queries the current track and hands artist and title here.  The
// detector remembers the last identity it saw and fires only when the
// identity changes, so a run of events reiterating the same track triggers
// one resolution at most.
// ---------------------------------------------------------------------------

/// What identifies a track for de-duplication and for the cache: artist and
/// title, compared by exact string equality, neither normalised nor trimmed.
pub struct TrackIdentity {
    pub artist: String,
    pub title: String,
}

impl PartialEq for TrackIdentity {
    fn eq(&self, other: &Self) -> (r: bool) {
        self.artist == other.artist && self.title == other.title
    }
}

impl vstd::std_specs::cmp::PartialEqSpecImpl for TrackIdentity {
    open spec fn obeys_eq_spec() -> bool {
        true
    }

    open spec fn eq_spec(&self, other: &Self) -> bool {
        self.artist@ == other.artist@ && self.title@ == other.title@
    }
}

/// What the detector decided about one change event.
#[derive(Clone, Copy, PartialEq, Eq, Structural, Debug)]
pub enum ChangeDecision {
    /// A new track: resolution should be dispatched.
    Fire,
    /// The same track as the previous event: nothing to do.
    SameAsPrevious,
    /// Artist or title missing from the player's metadata: nothing to do.
    MissingMetadata,
}

/// Whether an event carrying `key` fires when the detector last saw `last`.
pub open spec fn dedup_fires(
    last: Option<(Seq<char>, Seq<char>)>,
    key: (Seq<char>, Seq<char>),
) -> bool {
    last != Some(key)
}

/// The detector's memory after an event carrying `key`.
pub open spec fn dedup_next(
    last: Option<(Seq<char>, Seq<char>)>,
    key: (Seq<char>, Seq<char>),
) -> Option<(Seq<char>, Seq<char>)> {
    if dedup_fires(last, key) {
        Some(key)
    } else {
        last
    }
}

/// How many of `n` consecutive events, all carrying `key`, fire.
pub open spec fn fires_in_run(
    last: Option<(Seq<char>, Seq<char>)>,
    key: (Seq<char>, Seq<char>),
    n: nat,
) -> nat
    decreases n,
{
    if n == 0 {
        0
    } else {
        (if dedup_fires(last, key) {
            1nat
        } else {
            0nat
        }) + fires_in_run(dedup_next(last, key), key, (n - 1) as nat)
    }
}

/// De-duplication law: however many times in a row the player reports the
/// same track, the detector fires exactly once — not at all if that track
/// is already the remembered one.
pub proof fn lemma_dedup_fires_once(
    last: Option<(Seq<char>, Seq<char>)>,
    key: (Seq<char>, Seq<char>),
    n: nat,
)
    requires
        n > 0,
    ensures
        fires_in_run(last, key, n) == if last == Some(key) {
            0nat
        } else {
            1nat
        },
    decreases n,
{
    let next = dedup_next(last, key);
    if n == 1 {
        assert(fires_in_run(next, key, 0) == 0);
    } else {
        lemma_dedup_fires_once(next, key, (n - 1) as nat);
    }
}

/// The change detector: one piece of state, the last track identity seen.
pub struct ChangeDetector {
    pub last_seen: Option<TrackIdentity>,
}

impl ChangeDetector {
    /// The remembered identity, as a pair of character sequences.
    pub open spec fn last(self) -> Option<(Seq<char>, Seq<char>)> {
        match self.last_seen {
            Some(t) => Some((t.artist@, t.title@)),
            None => None,
        }
    }

    /// A fresh detector that remembers nothing, as at process start.
    pub fn new() -> (g: ChangeDetector)
        ensures
            g.last() == None::<(Seq<char>, Seq<char>)>,
    {
        ChangeDetector { last_seen: None }
    }

    /// Feeds one change event's current-track metadata through the detector.
    /// Missing metadata changes nothing; a repeat of the remembered track
    /// changes nothing; a new track is remembered and fires.
    pub fn observe(&mut self, artist: Option<String>, title: Option<String>) -> (d: ChangeDecision)
        ensures
            match (artist, title) {
                (Some(a), Some(t)) => {
                    let key = (a@, t@);
                    &&& (d == ChangeDecision::Fire <==> dedup_fires(old(self).last(), key))
                    &&& (d != ChangeDecision::Fire ==> d == ChangeDecision::SameAsPrevious)
                    &&& final(self).last() == dedup_next(old(self).last(), key)
                },
                _ => d == ChangeDecision::MissingMetadata && final(self).last() == old(
                    self,
                ).last(),
            },
    {
        match (artist, title) {
            (Some(a), Some(t)) => {
                let same = match &self.last_seen {
                    Some(p) => p.artist == a && p.title == t,
                    None => false,
                };
                if same {
                    ChangeDecision::SameAsPrevious
                } else {
                    self.last_seen = Some(TrackIdentity { artist: a, title: t });
                    ChangeDecision::Fire
                }
            },
            _ => ChangeDecision::MissingMetadata,
        }
    }
}

} // verus!
