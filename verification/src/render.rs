use vstd::prelude::*;

verus! {

// ---------------------------------------------------------------------------
// Flattening the lyrics fragment to plain text.
//
// The fragment recovered from the hydration payload is HTML.  Parsing HTML
// is the business of an outside crate; what the text of a fragment is gets a
// name here, and everything after that point — the edge trim — is verified.
// ---------------------------------------------------------------------------

/// The concatenated text content of all text nodes under the root of the
/// fragment, in document order, with no separator between nodes.
pub uninterp spec fn fragment_text(html: Seq<char>) -> Seq<char>;

/// Relies on scraper's `Html::parse_fragment` and `ElementRef::text`: parses
/// the string as a standalone HTML fragment and concatenates the text of its
/// text nodes in document order.  The result depends on the fragment alone.
#[verifier::external_body]
fn fragment_text_exec(html: &str) -> (r: String)
    ensures
        r@ == fragment_text(html@),
{
    let page = scraper::Html::parse_fragment(html);
    let parts: Vec<&str> = page.root_element().text().collect();
    parts.join("")
}

/// A whitespace character, as `str::trim` understands whitespace: the
/// Unicode `White_Space` characters.
pub open spec fn is_render_space(c: char) -> bool {
    c == ' ' || c == '\t' || c == '\n' || c == '\r' || c == '\u{0B}' || c == '\u{0C}' || c
        == '\u{85}' || c == '\u{A0}' || c == '\u{1680}' || c == '\u{2000}' || c == '\u{2001}' || c
        == '\u{2002}' || c == '\u{2003}' || c == '\u{2004}' || c == '\u{2005}' || c == '\u{2006}'
        || c == '\u{2007}' || c == '\u{2008}' || c == '\u{2009}' || c == '\u{200A}' || c
        == '\u{2028}' || c == '\u{2029}' || c == '\u{202F}' || c == '\u{205F}' || c == '\u{3000}'
}

fn is_space_char(c: char) -> (r: bool)
    ensures
        r == is_render_space(c),
{
    c == ' ' || c == '\t' || c == '\n' || c == '\r' || c == '\u{0B}' || c == '\u{0C}' || c
        == '\u{85}' || c == '\u{A0}' || c == '\u{1680}' || c == '\u{2000}' || c == '\u{2001}' || c
        == '\u{2002}' || c == '\u{2003}' || c == '\u{2004}' || c == '\u{2005}' || c == '\u{2006}'
        || c == '\u{2007}' || c == '\u{2008}' || c == '\u{2009}' || c == '\u{200A}' || c
        == '\u{2028}' || c == '\u{2029}' || c == '\u{202F}' || c == '\u{205F}' || c == '\u{3000}'
}

/// The text with leading whitespace removed.
pub open spec fn trim_front(s: Seq<char>) -> Seq<char>
    decreases s.len(),
{
    if s.len() > 0 && is_render_space(s[0]) {
        trim_front(s.skip(1))
    } else {
        s
    }
}

/// The text with trailing whitespace removed.
pub open spec fn trim_back(s: Seq<char>) -> Seq<char>
    decreases s.len(),
{
    if s.len() > 0 && is_render_space(s[s.len() - 1]) {
        trim_back(s.take(s.len() - 1))
    } else {
        s
    }
}

/// The text with whitespace removed at both edges and kept intact inside.
pub open spec fn trimmed(s: Seq<char>) -> Seq<char> {
    trim_back(trim_front(s))
}

/// What rendering a fragment yields: its flattened text, edge-trimmed.
pub open spec fn rendered(fragment: Seq<char>) -> Seq<char> {
    trimmed(fragment_text(fragment))
}

/// Renders an HTML lyrics fragment to plain text: the concatenated text of
/// its text nodes with no inserted separators, trimmed at the edges only.
pub fn render_lyrics(fragment: &str) -> (r: String)
    ensures
        r@ == rendered(fragment@),
{
    let t = fragment_text_exec(fragment);
    let ts = t.as_str();
    let ghost s = t@;
    let n = ts.unicode_len();
    let mut a: usize = 0;
    proof {
        assert(s.skip(0) =~= s);
    }
    while a < n && is_space_char(ts.get_char(a))
        invariant
            n == s.len(),
            ts@ == s,
            a <= n,
            trim_front(s) == trim_front(s.skip(a as int)),
        decreases n - a,
    {
        proof {
            assert(s.skip(a as int)[0] == s[a as int]);
            assert(trim_front(s.skip(a as int)) == trim_front(s.skip(a as int).skip(1)));
            assert(s.skip(a as int).skip(1) =~= s.skip(a as int + 1));
        }
        a += 1;
    }
    proof {
        if a == n {
            assert(s.skip(a as int).len() == 0);
        }
        assert(trim_front(s.skip(a as int)) == s.skip(a as int));
        assert(s.skip(a as int) =~= s.subrange(a as int, n as int));
    }
    let mut b: usize = n;
    while b > a && is_space_char(ts.get_char(b - 1))
        invariant
            n == s.len(),
            ts@ == s,
            a <= b <= n,
            trim_front(s) == s.skip(a as int),
            trim_back(s.skip(a as int)) == trim_back(s.subrange(a as int, b as int)),
        decreases b,
    {
        proof {
            let cur = s.subrange(a as int, b as int);
            assert(cur[cur.len() - 1] == s[b - 1]);
            assert(trim_back(cur) == trim_back(cur.take(cur.len() - 1)));
            assert(cur.take(cur.len() - 1) =~= s.subrange(a as int, b as int - 1));
        }
        b -= 1;
    }
    proof {
        let cur = s.subrange(a as int, b as int);
        assert(trim_back(cur) == cur);
    }
    let out = ts.substring_char(a, b);
    out.to_owned()
}

} // verus!
