pub mod detect;
pub mod dispatch;
pub mod extract;
pub mod render;
pub mod search;
pub mod text;

use vstd::prelude::*;

verus! {

/// A lyrics provider backend. Only one backend exists today; the enum leaves
/// room for ordered-fallback composition over several providers later.
#[derive(Clone, Copy, PartialEq, Eq, Structural, Debug)]
pub enum LyricsProvider {
    Genius,
}

/// The default provider list: Genius alone.
pub fn default_lyrics_providers() -> (r: Vec<LyricsProvider>)
    ensures
        r@.len() == 1,
        r@[0] == LyricsProvider::Genius,
{
    let mut v: Vec<LyricsProvider> = Vec::new();
    v.push(LyricsProvider::Genius);
    v
}

} // verus!
