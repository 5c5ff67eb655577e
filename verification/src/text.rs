use vstd::prelude::*;
use vstd::std_specs::iter::IteratorSpec;
use crate::lex::{
    lemma_lex_decided, lemma_lex_irreflexive, lemma_lex_total, lemma_lex_transitive, lex_lt,
    strict_total, views, Rank,
};

verus! {

/// Order of characters by code point.
pub open spec fn char_order() -> spec_fn(char, char) -> bool {
    |x: char, y: char| (x as int) < (y as int)
}

/// Strict dictionary order on texts, character by character.
pub open spec fn text_lt(a: Seq<char>, b: Seq<char>) -> bool {
    lex_lt(char_order(), a, b)
}

/// The dictionary order on texts, as a relation.
pub open spec fn text_order() -> spec_fn(Seq<char>, Seq<char>) -> bool {
    |a: Seq<char>, b: Seq<char>| text_lt(a, b)
}

/// Strict dictionary order on lists of texts, text by text.
pub open spec fn list_lt(a: Seq<Seq<char>>, b: Seq<Seq<char>>) -> bool {
    lex_lt(text_order(), a, b)
}

/// The dictionary order on lists of texts, as a relation.
pub open spec fn list_order() -> spec_fn(Seq<Seq<char>>, Seq<Seq<char>>) -> bool {
    |a: Seq<Seq<char>>, b: Seq<Seq<char>>| list_lt(a, b)
}

/// Characters are strictly and totally ordered by code point.
pub proof fn lemma_char_order()
    ensures
        strict_total(char_order()),
{
    let lt = char_order();
    assert forall|x: char, y: char| x == y || #[trigger] lt(x, y) || #[trigger] lt(y, x) by {
        assert(x as int == y as int ==> x == y);
    }
}

/// Texts are strictly and totally ordered by dictionary order.
pub proof fn lemma_text_order()
    ensures
        strict_total(text_order()),
{
    lemma_char_order();
    let up = text_order();
    assert forall|x: Seq<char>| !#[trigger] up(x, x) by {
        lemma_lex_irreflexive(char_order(), x);
    }
    assert forall|x: Seq<char>, y: Seq<char>| x == y || #[trigger] up(x, y) || #[trigger] up(
        y,
        x,
    ) by {
        lemma_lex_total(char_order(), x, y);
    }
    assert forall|x: Seq<char>, y: Seq<char>, z: Seq<char>| #[trigger] up(x, y) && #[trigger] up(
        y,
        z,
    ) implies up(x, z) by {
        lemma_lex_transitive(char_order(), x, y, z);
    }
}

/// Lists of texts are strictly and totally ordered by dictionary order.
pub proof fn lemma_list_order()
    ensures
        strict_total(list_order()),
{
    lemma_text_order();
    let up = list_order();
    assert forall|x: Seq<Seq<char>>| !#[trigger] up(x, x) by {
        lemma_lex_irreflexive(text_order(), x);
    }
    assert forall|x: Seq<Seq<char>>, y: Seq<Seq<char>>| x == y || #[trigger] up(x, y)
        || #[trigger] up(y, x) by {
        lemma_lex_total(text_order(), x, y);
    }
    assert forall|x: Seq<Seq<char>>, y: Seq<Seq<char>>, z: Seq<Seq<char>>| #[trigger] up(x, y)
        && #[trigger] up(y, z) implies up(x, z) by {
        lemma_lex_transitive(text_order(), x, y, z);
    }
}

/// What a comparison of `a` with `b` must answer under the order `lt`.
pub open spec fn ranked<T>(lt: spec_fn(T, T) -> bool, a: Seq<T>, b: Seq<T>, r: Rank) -> bool {
    &&& r == Rank::Before <==> lex_lt(lt, a, b)
    &&& r == Rank::Same <==> a == b
    &&& r == Rank::After <==> lex_lt(lt, b, a)
}

/// Copies the characters of a string slice into a vector.
pub fn chars_of(s: &str) -> (v: Vec<char>)
    ensures
        v@ == s@,
{
    let mut v: Vec<char> = Vec::new();
    let chars = s.chars();
    assert(chars.remaining() == s@);
    for c in it: chars
        invariant
            it.seq() == s@,
            v@ == it.history(),
    {
        v.push(c);
    }
    assert(v@ =~= s@);
    v
}

/// Places two character vectors in dictionary order.
pub fn rank_chars(a: &Vec<char>, b: &Vec<char>) -> (r: Rank)
    ensures
        ranked(char_order(), a@, b@, r),
{
    let mut k: usize = 0;
    while k < a.len() && k < b.len() && a[k] == b[k]
        invariant
            k <= a.len(),
            k <= b.len(),
            a@.take(k as int) == b@.take(k as int),
        decreases a.len() - k,
    {
        k = k + 1;
        assert(a@.take(k as int) =~= a@.take(k - 1).push(a@[k - 1]));
        assert(b@.take(k as int) =~= b@.take(k - 1).push(b@[k - 1]));
    }
    proof {
        lemma_char_order();
        lemma_lex_decided(char_order(), a@, b@, k as int);
    }
    if k == a.len() {
        if k == b.len() {
            Rank::Same
        } else {
            Rank::Before
        }
    } else if k == b.len() {
        Rank::After
    } else if a[k] < b[k] {
        Rank::Before
    } else {
        Rank::After
    }
}

/// Places two texts in dictionary order.
pub fn rank_text(a: &str, b: &str) -> (r: Rank)
    ensures
        ranked(char_order(), a@, b@, r),
{
    let x = chars_of(a);
    let y = chars_of(b);
    rank_chars(&x, &y)
}

/// Whether two texts hold the same characters.
pub fn same_text(a: &str, b: &str) -> (r: bool)
    ensures
        r == (a@ == b@),
{
    rank_text(a, b) == Rank::Same
}

/// Places two lists of texts in dictionary order.
pub fn rank_lists(a: &Vec<String>, b: &Vec<String>) -> (r: Rank)
    ensures
        ranked(text_order(), views(a@), views(b@), r),
{
    let ghost x = views(a@);
    let ghost y = views(b@);
    let mut k: usize = 0;
    let mut last = Rank::Same;
    while k < a.len() && k < b.len()
        invariant_except_break
            last == Rank::Same,
        invariant
            x == views(a@),
            y == views(b@),
            k <= a.len(),
            k <= b.len(),
            x.len() == a.len(),
            y.len() == b.len(),
            x.take(k as int) == y.take(k as int),
        ensures
            last == Rank::Same ==> k == a.len() || k == b.len(),
            last != Rank::Same ==> k < a.len() && k < b.len() && ranked(
                char_order(),
                x[k as int],
                y[k as int],
                last,
            ),
        decreases a.len() - k,
    {
        last = rank_text(a[k].as_str(), b[k].as_str());
        if last != Rank::Same {
            break ;
        }
        k = k + 1;
        assert(x.take(k as int) =~= x.take(k - 1).push(x[k - 1]));
        assert(y.take(k as int) =~= y.take(k - 1).push(y[k - 1]));
    }
    proof {
        lemma_text_order();
        lemma_lex_decided(text_order(), x, y, k as int);
    }
    if last != Rank::Same {
        last
    } else if k == a.len() {
        if k == b.len() {
            Rank::Same
        } else {
            Rank::Before
        }
    } else {
        Rank::After
    }
}

} // verus!
