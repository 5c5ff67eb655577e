use vstd::prelude::*;
use crate::lex::views;
use crate::scan::push_char;
use crate::text::chars_of;

verus! {

/// The lowercase form of a text, as `str::to_lowercase` of the standard library gives it.
pub uninterp spec fn lowercase_of(s: Seq<char>) -> Seq<char>;

/// One of the code points that have the Unicode property White_Space.
pub open spec fn white_space(c: char) -> bool {
    ||| '\u{9}' as int <= c as int <= '\u{d}' as int
    ||| c == ' '
    ||| c == '\u{85}'
    ||| c == '\u{a0}'
    ||| c == '\u{1680}'
    ||| '\u{2000}' as int <= c as int <= '\u{200a}' as int
    ||| c == '\u{2028}'
    ||| c == '\u{2029}'
    ||| c == '\u{202f}'
    ||| c == '\u{205f}'
    ||| c == '\u{3000}'
}

/// The text without its trailing whitespace: its longest opening that does not end
/// in whitespace.
pub open spec fn trimmed_end(s: Seq<char>) -> Seq<char>
    decreases s.len(),
{
    if s.len() > 0 && white_space(s.last()) {
        trimmed_end(s.drop_last())
    } else {
        s
    }
}

/// `str::to_lowercase`: the lowercase form of `s` by the Unicode rules.
#[verifier::external_body]
pub(crate) fn lowercase(s: &str) -> (r: String)
    ensures
        r@ == lowercase_of(s@),
{
    s.to_lowercase()
}

/// `str::trim_end`: the result opens `s`, what it leaves off is whitespace, and it
/// does not end in whitespace itself. Whitespace is what has the Unicode property
/// White_Space.
#[verifier::external_body]
pub(crate) fn trim_end(s: &str) -> (r: String)
    ensures
        r@.is_prefix_of(s@),
        forall|i: int| r@.len() <= i < s@.len() ==> white_space(#[trigger] s@[i]),
        r@.len() > 0 ==> !white_space(r@.last()),
{
    s.trim_end().to_string()
}

/// An opening of a text that leaves off whitespace only, and does not end in
/// whitespace, is the text without its trailing whitespace.
pub proof fn lemma_trimmed_end(s: Seq<char>, r: Seq<char>)
    requires
        r.is_prefix_of(s),
        forall|i: int| r.len() <= i < s.len() ==> white_space(#[trigger] s[i]),
        r.len() > 0 ==> !white_space(r.last()),
    ensures
        r == trimmed_end(s),
    decreases s.len(),
{
    if r.len() == s.len() {
        assert(r =~= s);
    } else {
        assert(white_space(s[s.len() - 1]));
        assert(r.is_prefix_of(s.drop_last())) by {
            assert(r =~= s.drop_last().subrange(0, r.len() as int));
        }
        assert forall|i: int| r.len() <= i < s.drop_last().len() implies white_space(
            #[trigger] s.drop_last()[i],
        ) by {
            assert(s.drop_last()[i] == s[i]);
        }
        lemma_trimmed_end(s.drop_last(), r);
    }
}

/// Whether the character is whitespace.
pub fn is_white_space(c: char) -> (r: bool)
    ensures
        r == white_space(c),
{
    (c >= '\u{9}' && c <= '\u{d}') || c == ' ' || c == '\u{85}' || c == '\u{a0}' || c
        == '\u{1680}' || (c >= '\u{2000}' && c <= '\u{200a}') || c == '\u{2028}' || c
        == '\u{2029}' || c == '\u{202f}' || c == '\u{205f}' || c == '\u{3000}'
}

/// Takes the trailing whitespace off a text.
pub fn trim_trailing(s: &str) -> (r: String)
    ensures
        r@ == trimmed_end(s@),
{
    let r = trim_end(s);
    proof {
        lemma_trimmed_end(s@, r@);
    }
    r
}

/// A space or a slash becomes a hyphen; any other character stays.
pub open spec fn hyphen_for(c: char) -> char {
    if c == ' ' || c == '/' {
        '-'
    } else {
        c
    }
}

/// The text with every space and every slash replaced by a hyphen.
pub open spec fn hyphenated(s: Seq<char>) -> Seq<char> {
    s.map_values(|c: char| hyphen_for(c))
}

/// The canonical form of a name: lowercase, with hyphens for spaces and slashes.
pub open spec fn normalized(s: Seq<char>) -> Seq<char> {
    hyphenated(lowercase_of(s))
}

/// The canonical forms of a list of names, in order.
pub open spec fn normalized_all(names: Seq<Seq<char>>) -> Seq<Seq<char>> {
    names.map_values(|s: Seq<char>| normalized(s))
}

/// Replaces every space and every slash by a hyphen.
pub fn hyphenate(s: &str) -> (r: String)
    ensures
        r@ == hyphenated(s@),
{
    let v = chars_of(s);
    let mut r = String::new();
    let mut i: usize = 0;
    while i < v.len()
        invariant
            i <= v.len(),
            v@ == s@,
            r@ == hyphenated(s@).take(i as int),
        decreases v.len() - i,
    {
        let c = v[i];
        if c == ' ' || c == '/' {
            push_char(&mut r, '-');
        } else {
            push_char(&mut r, c);
        }
        i = i + 1;
        assert(r@ =~= hyphenated(s@).take(i as int));
    }
    assert(hyphenated(s@).take(i as int) =~= hyphenated(s@));
    r
}

/// Brings a name to its canonical form. Never fails.
pub fn normalize(s: &str) -> (r: String)
    ensures
        r@ == normalized(s@),
{
    let low = lowercase(s);
    hyphenate(low.as_str())
}

/// Brings every name of a list to its canonical form, in order.
pub fn normalize_all(names: &Vec<String>) -> (r: Vec<String>)
    ensures
        views(r@) == normalized_all(views(names@)),
{
    let mut r: Vec<String> = Vec::new();
    let mut i: usize = 0;
    while i < names.len()
        invariant
            i <= names.len(),
            views(r@) == normalized_all(views(names@)).take(i as int),
        decreases names.len() - i,
    {
        let ghost before = views(r@);
        let n = normalize(names[i].as_str());
        r.push(n);
        assert(views(r@) =~= before.push(normalized(names[i as int]@)));
        i = i + 1;
        assert(views(r@) =~= normalized_all(views(names@)).take(i as int));
    }
    assert(normalized_all(views(names@)).take(i as int) =~= normalized_all(views(names@)));
    r
}

/// Replacing spaces and slashes a second time changes nothing.
pub proof fn lemma_hyphenated_idempotent(s: Seq<char>)
    ensures
        hyphenated(hyphenated(s)) == hyphenated(s),
{
    assert(hyphenated(hyphenated(s)) =~= hyphenated(s));
}

/// Normalizing a second time changes nothing, wherever lower-casing leaves a
/// normalized text as it is.
pub proof fn lemma_normalized_idempotent(s: Seq<char>)
    ensures
        lowercase_of(normalized(s)) == normalized(s) ==> normalized(normalized(s)) == normalized(s),
{
    lemma_hyphenated_idempotent(lowercase_of(s));
}

} // verus!
