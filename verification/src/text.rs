use vstd::prelude::*;

verus! {

// ---------------------------------------------------------------------------
// Escaping model.
//
// The provider embeds its hydration payload as a single-quoted JavaScript
// string literal, escaping the characters `$`, `"`, `'` and `\` with a
// leading backslash.  `escape_with` describes that convention, parameterised
// by the set of characters that carry an escape, so that the partially
// unescaped forms that arise mid-way through unescaping can be described by
// the same function.
// ---------------------------------------------------------------------------

/// The characters the page escapes inside its single-quoted payload literal.
pub open spec fn escaped_chars() -> Set<char> {
    set!['$', '"', '\'', '\\']
}

/// One source character as it appears in the escaped text: a leading
/// backslash where the character is escaped, the bare character otherwise.
pub open spec fn escape_token(c: char, sp: Set<char>) -> Seq<char> {
    if sp.contains(c) {
        seq!['\\', c]
    } else {
        seq![c]
    }
}

/// The text `s` with every character of `sp` escaped by a backslash.
pub open spec fn escape_with(s: Seq<char>, sp: Set<char>) -> Seq<char>
    decreases s.len(),
{
    if s.len() == 0 {
        Seq::empty()
    } else {
        escape_token(s[0], sp) + escape_with(s.skip(1), sp)
    }
}

/// The page's escaping convention for the embedded payload.
pub open spec fn escape_payload(s: Seq<char>) -> Seq<char> {
    escape_with(s, escaped_chars())
}

// ---------------------------------------------------------------------------
// Unescaping: one global replacement per escaped character, in a fixed
// order.  `replace_escape` is the left-to-right, non-overlapping replacement
// of the two-character pattern `\t` by the single character `t`, exactly the
// behaviour of `str::replace` on such a pattern.
// ---------------------------------------------------------------------------

/// Left-to-right, non-overlapping replacement of `['\\', t]` by `[t]`.
pub open spec fn replace_escape(s: Seq<char>, t: char) -> Seq<char>
    decreases s.len(),
{
    if s.len() < 2 {
        s
    } else if s[0] == '\\' && s[1] == t {
        seq![t] + replace_escape(s.skip(2), t)
    } else {
        seq![s[0]] + replace_escape(s.skip(1), t)
    }
}

/// The unescaping policy: `\$`, then `\"`, then `\'`, and `\\` last, so that
/// collapsing doubled backslashes cannot expose a spurious escape for one of
/// the earlier rules.
pub open spec fn unescape_payload(s: Seq<char>) -> Seq<char> {
    replace_escape(
        replace_escape(replace_escape(replace_escape(s, '$'), '"'), '\''),
        '\\',
    )
}

// ---------------------------------------------------------------------------
// The round-trip law: unescaping inverts the page's escaping.
// ---------------------------------------------------------------------------

/// In a non-empty escaped text the first character is either a backslash
/// opening an escape, or a character that carries no escape.
proof fn lemma_escape_head(s: Seq<char>, sp: Set<char>)
    requires
        s.len() > 0,
    ensures
        escape_with(s, sp).len() > 0,
        escape_with(s, sp)[0] == '\\' || (escape_with(s, sp)[0] == s[0]
            && !sp.contains(escape_with(s, sp)[0])),
{
    assert(escape_with(s, sp) == escape_token(s[0], sp) + escape_with(s.skip(1), sp));
}

/// Replacing `\t` by `t` in text escaped for `sp` yields the same text
/// escaped for `sp` without `t`: each escaped occurrence of `t` is reduced
/// and no other part of the text is touched.
proof fn lemma_replace_escape_with(s: Seq<char>, sp: Set<char>, t: char)
    requires
        sp.contains('\\'),
        sp.contains(t),
        t != '\\',
    ensures
        replace_escape(escape_with(s, sp), t) == escape_with(s, sp.remove(t)),
    decreases s.len(),
{
    let e = escape_with(s, sp);
    let spr = sp.remove(t);
    if s.len() == 0 {
        assert(e == Seq::<char>::empty());
    } else {
        let c = s[0];
        let rest = s.skip(1);
        let r = escape_with(rest, sp);
        lemma_replace_escape_with(rest, sp, t);
        if c == t {
            assert(e == seq!['\\', t] + r);
            assert(e.len() >= 2 && e[0] == '\\' && e[1] == t);
            assert(e.skip(2) =~= r);
            assert(replace_escape(e, t) == seq![t] + replace_escape(r, t));
            assert(escape_with(s, spr) == escape_token(t, spr) + escape_with(rest, spr));
            assert(escape_token(t, spr) =~= seq![t]);
        } else if sp.contains(c) {
            assert(e == seq!['\\', c] + r);
            assert(e.len() >= 2 && e[0] == '\\' && e[1] == c);
            assert(replace_escape(e, t) == seq!['\\'] + replace_escape(e.skip(1), t));
            let e1 = e.skip(1);
            assert(e1 =~= seq![c] + r);
            if r.len() == 0 {
                assert(e1.len() == 1);
                assert(replace_escape(e1, t) == e1);
                assert(rest.len() == 0);
                assert(escape_with(rest, spr) == Seq::<char>::empty());
                assert(escape_with(s, spr) =~= seq!['\\', c]);
                assert(seq!['\\'] + e1 =~= seq!['\\', c]);
            } else {
                lemma_escape_head(rest, sp);
                assert(e1[0] == c && e1[1] == r[0]);
                assert(r[0] != t);
                assert(!(e1[0] == '\\' && e1[1] == t));
                assert(replace_escape(e1, t) == seq![c] + replace_escape(e1.skip(1), t));
                assert(e1.skip(1) =~= r);
                assert(escape_with(s, spr) == escape_token(c, spr) + escape_with(rest, spr));
                assert(escape_token(c, spr) =~= seq!['\\', c]);
                assert(seq!['\\'] + (seq![c] + escape_with(rest, spr)) =~= seq!['\\', c]
                    + escape_with(rest, spr));
            }
        } else {
            assert(c != '\\');
            assert(e == seq![c] + r);
            assert(escape_with(s, spr) == escape_token(c, spr) + escape_with(rest, spr));
            assert(escape_token(c, spr) =~= seq![c]);
            if r.len() == 0 {
                assert(e.len() == 1);
                assert(replace_escape(e, t) == e);
                assert(rest.len() == 0);
                assert(escape_with(rest, spr) == Seq::<char>::empty());
                assert(e =~= escape_with(s, spr));
            } else {
                assert(e[0] == c);
                assert(replace_escape(e, t) == seq![c] + replace_escape(e.skip(1), t));
                assert(e.skip(1) =~= r);
            }
        }
    }
}

/// Collapsing `\\` in text whose only escaped character is the backslash
/// recovers the text it escaped.
proof fn lemma_replace_backslash(s: Seq<char>)
    ensures
        replace_escape(escape_with(s, set!['\\']), '\\') == s,
    decreases s.len(),
{
    let sp = set!['\\'];
    let e = escape_with(s, sp);
    if s.len() == 0 {
        assert(e == Seq::<char>::empty());
        assert(replace_escape(e, '\\') =~= s);
    } else {
        let c = s[0];
        let rest = s.skip(1);
        let r = escape_with(rest, sp);
        lemma_replace_backslash(rest);
        if c == '\\' {
            assert(e == seq!['\\', '\\'] + r);
            assert(e.len() >= 2 && e[0] == '\\' && e[1] == '\\');
            assert(replace_escape(e, '\\') == seq!['\\'] + replace_escape(e.skip(2), '\\'));
            assert(e.skip(2) =~= r);
            assert(seq!['\\'] + rest =~= s);
        } else {
            assert(e == seq![c] + r);
            if r.len() == 0 {
                assert(e.len() == 1);
                assert(replace_escape(e, '\\') == e);
                assert(rest.len() == 0);
                assert(e =~= s);
            } else {
                assert(e[0] == c && c != '\\');
                assert(replace_escape(e, '\\') == seq![c] + replace_escape(e.skip(1), '\\'));
                assert(e.skip(1) =~= r);
                assert(seq![c] + rest =~= s);
            }
        }
    }
}

/// Round-trip law: escaping a text with the page's convention and applying
/// the four unescaping replacements in their fixed order reproduces the
/// text exactly.
pub proof fn lemma_unescape_round_trip(s: Seq<char>)
    ensures
        unescape_payload(escape_payload(s)) == s,
{
    let sp0 = escaped_chars();
    let sp1 = sp0.remove('$');
    let sp2 = sp1.remove('"');
    let sp3 = sp2.remove('\'');
    lemma_replace_escape_with(s, sp0, '$');
    lemma_replace_escape_with(s, sp1, '"');
    lemma_replace_escape_with(s, sp2, '\'');
    assert(sp3 =~= set!['\\']);
    lemma_replace_backslash(s);
}

// ---------------------------------------------------------------------------
// Executable text plumbing.
// ---------------------------------------------------------------------------

/// Relies on `String::push`: appends the character to the end of the string.
#[verifier::external_body]
fn push_char(s: &mut String, c: char)
    ensures
        final(s)@ == old(s)@.push(c),
{
    s.push(c);
}

/// The characters of a string slice, in order.
pub(crate) fn chars_of(s: &str) -> (r: Vec<char>)
    ensures
        r@ == s@,
{
    let n = s.unicode_len();
    let mut out: Vec<char> = Vec::new();
    let mut i: usize = 0;
    while i < n
        invariant
            n == s@.len(),
            i <= n,
            out@ == s@.subrange(0, i as int),
        decreases n - i,
    {
        let c = s.get_char(i);
        out.push(c);
        assert(out@ =~= s@.subrange(0, i + 1 as int));
        i += 1;
    }
    assert(out@ =~= s@);
    out
}

/// A string holding exactly the given characters, in order.
pub(crate) fn string_of(v: &Vec<char>) -> (r: String)
    ensures
        r@ == v@,
{
    let mut out = String::new();
    let mut i: usize = 0;
    while i < v.len()
        invariant
            i <= v@.len(),
            out@ == v@.subrange(0, i as int),
        decreases v@.len() - i,
    {
        push_char(&mut out, v[i]);
        assert(out@ =~= v@.subrange(0, i + 1 as int));
        i += 1;
    }
    assert(out@ =~= v@);
    out
}

/// Left-to-right, non-overlapping replacement of the pair `\t` by `t`,
/// the executable counterpart of `replace_escape`.
fn replace_escape_exec(v: &Vec<char>, t: char) -> (r: Vec<char>)
    ensures
        r@ == replace_escape(v@, t),
{
    let n = v.len();
    let mut out: Vec<char> = Vec::new();
    let mut i: usize = 0;
    proof {
        assert(v@.skip(0) =~= v@);
        assert(out@ + replace_escape(v@, t) =~= replace_escape(v@, t));
    }
    while i < n
        invariant
            n == v@.len(),
            i <= n,
            replace_escape(v@, t) == out@ + replace_escape(v@.skip(i as int), t),
        decreases n - i,
    {
        let ghost rest = v@.skip(i as int);
        let ghost out_pre = out@;
        if i + 1 < n && v[i] == '\\' && v[i + 1] == t {
            out.push(t);
            proof {
                assert(rest[0] == '\\' && rest[1] == t);
                assert(replace_escape(rest, t) == seq![t] + replace_escape(rest.skip(2), t));
                assert(rest.skip(2) =~= v@.skip(i as int + 2));
                assert(out@ =~= out_pre + seq![t]);
                assert(out@ + replace_escape(v@.skip(i as int + 2), t) =~= out_pre
                    + replace_escape(rest, t));
            }
            i += 2;
        } else {
            let c = v[i];
            out.push(c);
            proof {
                assert(rest[0] == c);
                if rest.len() < 2 {
                    assert(rest =~= seq![c]);
                    assert(v@.skip(i as int + 1) =~= Seq::<char>::empty());
                    assert(replace_escape(rest, t) == rest);
                    assert(replace_escape(rest, t) =~= seq![c] + replace_escape(
                        v@.skip(i as int + 1),
                        t,
                    ));
                } else {
                    assert(!(rest[0] == '\\' && rest[1] == t));
                    assert(replace_escape(rest, t) == seq![c] + replace_escape(
                        rest.skip(1),
                        t,
                    ));
                    assert(rest.skip(1) =~= v@.skip(i as int + 1));
                }
                assert(out@ =~= out_pre + seq![c]);
                assert(out@ + replace_escape(v@.skip(i as int + 1), t) =~= out_pre
                    + replace_escape(rest, t));
            }
            i += 1;
        }
    }
    proof {
        assert(v@.skip(n as int) =~= Seq::<char>::empty());
        assert(out@ + replace_escape(v@.skip(n as int), t) =~= out@);
    }
    out
}

/// Applies the unescaping policy to an escaped payload held as characters.
pub(crate) fn unescape_chars(v: &Vec<char>) -> (r: Vec<char>)
    ensures
        r@ == unescape_payload(v@),
{
    let r = replace_escape_exec(v, '$');
    let r = replace_escape_exec(&r, '"');
    let r = replace_escape_exec(&r, '\'');
    replace_escape_exec(&r, '\\')
}

/// Applies the unescaping policy to an escaped payload: `\$`, `\"`, `\'`
/// and finally `\\`, each a global left-to-right replacement.
pub fn unescape_hydration(s: &str) -> (r: String)
    ensures
        r@ == unescape_payload(s@),
{
    let v = chars_of(s);
    let v = unescape_chars(&v);
    string_of(&v)
}

} // verus!
