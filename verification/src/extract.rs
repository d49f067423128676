use vstd::prelude::*;

use crate::text::{chars_of, string_of, unescape_chars, unescape_payload};

verus! {

// ---------------------------------------------------------------------------
// Locating the hydration payload.
//
// The lyrics page assigns its hydration state with a line of the form
//
//     window.__PRELOADED_STATE__ = JSON.parse('<escaped payload>')
//
// with at most one space on either side of the `=`.  The payload is the
// longest stretch of characters on that line between `JSON.parse('` and a
// closing `')`, matching how a greedy single-line pattern reads it.  The
// first such assignment in the page wins.
// ---------------------------------------------------------------------------

/// Extraction failures: the assignment pattern is absent from the page, or
/// the recovered payload does not decode into the expected structure (the
/// latter is diagnosed by the caller that decodes the payload).
#[derive(Clone, Copy, PartialEq, Eq, Structural, Debug)]
pub enum ExtractError {
    MarkerMissing,
    PayloadInvalid,
}

impl ExtractError {
    /// A distinct description for operator logs: an extraction failure
    /// signals that the provider's page format likely changed, and must not
    /// read like an ordinary "no lyrics" outcome.
    pub fn describe(&self) -> (d: &'static str)
        ensures
            match self {
                ExtractError::MarkerMissing => d@ == "hydration marker missing"@,
                ExtractError::PayloadInvalid => d@ == "hydration payload undecodable"@,
            },
    {
        match self {
            ExtractError::MarkerMissing => "hydration marker missing",
            ExtractError::PayloadInvalid => "hydration payload undecodable",
        }
    }
}

/// `pat` occurs in `s` starting at `i`.
pub open spec fn pat_at(s: Seq<char>, i: int, pat: Seq<char>) -> bool {
    0 <= i && i + pat.len() <= s.len() && s.subrange(i, i + pat.len()) == pat
}

/// The fixed text before the optional space and the `=`.
pub open spec fn state_var_pat() -> Seq<char> {
    "window.__PRELOADED_STATE__"@
}

/// The fixed text that opens the quoted payload.
pub open spec fn parse_open_pat() -> Seq<char> {
    "JSON.parse('"@
}

/// Skips a single space at `j`, if one is there.
pub open spec fn skip_space(s: Seq<char>, j: int) -> int {
    if 0 <= j < s.len() && s[j] == ' ' {
        j + 1
    } else {
        j
    }
}

/// The assignment pattern, up to and including the opening quote, occurs
/// at `i`.
pub open spec fn head_match(s: Seq<char>, i: int) -> bool {
    pat_at(s, i, state_var_pat()) && {
        let j = skip_space(s, i + state_var_pat().len());
        0 <= j < s.len() && s[j] == '=' && pat_at(s, skip_space(s, j + 1), parse_open_pat())
    }
}

/// Where the captured payload starts for a head match at `i`.
pub open spec fn cap_start(s: Seq<char>, i: int) -> int {
    skip_space(s, skip_space(s, i + state_var_pat().len()) + 1) + parse_open_pat().len()
}

/// A closing `')` stands at `k`, with no newline between the capture start
/// `cs` and it: a candidate end for the single-line capture.
pub open spec fn close_at(s: Seq<char>, cs: int, k: int) -> bool {
    cs <= k && k + 2 <= s.len() && s[k] == '\'' && s[k + 1] == ')' && (forall|p: int|
        cs <= p < k ==> s[p] != '\n')
}

/// The greedy capture end: the last closing `')` on the capture's line.
pub open spec fn is_cap_end(s: Seq<char>, cs: int, k: int) -> bool {
    close_at(s, cs, k) && (forall|k2: int| k2 > k ==> !close_at(s, cs, k2))
}

/// The whole assignment pattern matches at `i`.
pub open spec fn full_match(s: Seq<char>, i: int) -> bool {
    head_match(s, i) && (exists|k: int| close_at(s, cap_start(s, i), k))
}

/// The page holds the hydration assignment somewhere.
pub open spec fn marker_present(s: Seq<char>) -> bool {
    exists|i: int| full_match(s, i)
}

/// `i` is the first position at which the whole pattern matches.
pub open spec fn is_first_match(s: Seq<char>, i: int) -> bool {
    full_match(s, i) && (forall|j: int| 0 <= j < i ==> !full_match(s, j))
}

// ---------------------------------------------------------------------------
// Executable matching.
// ---------------------------------------------------------------------------

/// Whether `pat` occurs in `v` starting at `i`.
fn match_at(v: &Vec<char>, i: usize, pat: &Vec<char>) -> (r: bool)
    ensures
        r == pat_at(v@, i as int, pat@),
{
    let n = v.len();
    if i > n || n - i < pat.len() {
        return false;
    }
    let mut j: usize = 0;
    while j < pat.len()
        invariant
            n == v@.len(),
            i + pat@.len() <= n,
            j <= pat@.len(),
            forall|q: int| 0 <= q < j ==> v@[i + q] == pat@[q],
        decreases pat@.len() - j,
    {
        if v[i + j] != pat[j] {
            proof {
                let sub = v@.subrange(i as int, i as int + pat@.len());
                assert(sub[j as int] == v@[i as int + j]);
                assert(sub != pat@);
            }
            return false;
        }
        j += 1;
    }
    proof {
        assert(v@.subrange(i as int, i as int + pat@.len()) =~= pat@);
    }
    true
}

/// Finds the head of the assignment pattern at `i` and returns where the
/// captured payload would start.
fn head_capture(v: &Vec<char>, i: usize, p1: &Vec<char>, p2: &Vec<char>) -> (r: Option<usize>)
    requires
        p1@ == state_var_pat(),
        p2@ == parse_open_pat(),
    ensures
        match r {
            Some(cs) => head_match(v@, i as int) && cs == cap_start(v@, i as int) && cs <= v@.len(),
            None => !head_match(v@, i as int),
        },
{
    if !match_at(v, i, p1) {
        return None;
    }
    let vn = v.len();
    assert(i + p1@.len() <= vn);
    let j0 = i + p1.len();
    let j1 = if j0 < v.len() && v[j0] == ' ' {
        j0 + 1
    } else {
        j0
    };
    if !(j1 < v.len() && v[j1] == '=') {
        return None;
    }
    let j2 = j1 + 1;
    let j3 = if j2 < v.len() && v[j2] == ' ' {
        j2 + 1
    } else {
        j2
    };
    if !match_at(v, j3, p2) {
        return None;
    }
    Some(j3 + p2.len())
}

/// Finds the greedy capture end for a capture starting at `cs`: the last
/// closing `')` reachable without crossing a newline.
fn find_close(v: &Vec<char>, cs: usize) -> (r: Option<usize>)
    requires
        cs <= v@.len(),
    ensures
        match r {
            Some(k) => is_cap_end(v@, cs as int, k as int) && cs <= k && k + 2 <= v@.len(),
            None => forall|k: int| !close_at(v@, cs as int, k),
        },
{
    let n = v.len();
    let mut nl: usize = cs;
    while nl < n && v[nl] != '\n'
        invariant
            n == v@.len(),
            cs <= nl <= n,
            forall|p: int| cs <= p < nl ==> v@[p] != '\n',
        decreases n - nl,
    {
        nl += 1;
    }
    if n < 2 {
        return None;
    }
    let hi = if nl <= n - 2 {
        nl
    } else {
        n - 2
    };
    proof {
        assert forall|k2: int| k2 > hi implies !close_at(v@, cs as int, k2) by {
            if close_at(v@, cs as int, k2) {
                assert(k2 + 2 <= n);
                assert(nl <= n - 2 && k2 > nl);
                assert(nl < n && v@[nl as int] == '\n');
                assert(cs <= nl < k2);
            }
        }
    }
    let mut k = hi + 1;
    while k > cs
        invariant
            n == v@.len(),
            k <= hi + 1,
            hi + 2 <= n,
            hi <= nl,
            cs <= nl,
            forall|p: int| cs <= p < nl ==> v@[p] != '\n',
            forall|k2: int| k2 >= k ==> !close_at(v@, cs as int, k2),
        decreases k,
    {
        k -= 1;
        if v[k] == '\'' && v[k + 1] == ')' {
            proof {
                assert forall|p: int| cs <= p < k implies v@[p] != '\n' by {
                    assert(p < nl);
                }
            }
            return Some(k);
        }
        proof {
            assert(!close_at(v@, cs as int, k as int));
        }
    }
    None
}

/// The characters of `v` from `a` up to `b`.
fn slice_chars(v: &Vec<char>, a: usize, b: usize) -> (r: Vec<char>)
    requires
        a <= b <= v@.len(),
    ensures
        r@ == v@.subrange(a as int, b as int),
{
    let mut out: Vec<char> = Vec::new();
    let mut i = a;
    while i < b
        invariant
            a <= i <= b <= v@.len(),
            out@ == v@.subrange(a as int, i as int),
        decreases b - i,
    {
        out.push(v[i]);
        assert(out@ =~= v@.subrange(a as int, i + 1 as int));
        i += 1;
    }
    out
}

/// Pulls the escaped hydration payload out of the raw page markup and
/// unescapes it: the capture of the first full assignment pattern, taken
/// greedily to the last closing `')` on its line, with the four unescaping
/// replacements applied.  Fails exactly when no full pattern occurs.
pub fn extract_hydration_json(page: &str) -> (r: Result<String, ExtractError>)
    ensures
        marker_present(page@) <==> r is Ok,
        match r {
            Ok(payload) => exists|i: int|
                is_first_match(page@, i) && (exists|k: int|
                    is_cap_end(page@, cap_start(page@, i), k) && payload@ == unescape_payload(
                        page@.subrange(cap_start(page@, i), k),
                    )),
            Err(e) => e == ExtractError::MarkerMissing,
        },
{
    let v = chars_of(page);
    let p1 = chars_of("window.__PRELOADED_STATE__");
    let p2 = chars_of("JSON.parse('");
    let n = v.len();
    let mut i: usize = 0;
    while i < n
        invariant
            n == v@.len(),
            v@ == page@,
            p1@ == state_var_pat(),
            p2@ == parse_open_pat(),
            forall|j: int| 0 <= j < i ==> !full_match(page@, j),
        decreases n - i,
    {
        match head_capture(&v, i, &p1, &p2) {
            Some(cs) => {
                match find_close(&v, cs) {
                    Some(k) => {
                        let cap = slice_chars(&v, cs, k);
                        let unescaped = unescape_chars(&cap);
                        let payload = string_of(&unescaped);
                        proof {
                            assert(close_at(page@, cs as int, k as int));
                            assert(full_match(page@, i as int));
                            assert(is_first_match(page@, i as int));
                            assert(cs == cap_start(page@, i as int));
                        }
                        return Ok(payload);
                    },
                    None => {
                        proof {
                            assert(!full_match(page@, i as int));
                        }
                    },
                }
            },
            None => {
                proof {
                    assert(!full_match(page@, i as int));
                }
            },
        }
        i += 1;
    }
    proof {
        reveal_strlit("window.__PRELOADED_STATE__");
        assert(state_var_pat().len() == 26);
        assert forall|j: int| !full_match(page@, j) by {
            if 0 <= j < n {
                assert(!full_match(page@, j));
            } else {
                assert(!pat_at(page@, j, state_var_pat()));
            }
        }
        assert(!marker_present(page@));
    }
    Err(ExtractError::MarkerMissing)
}

} // verus!
