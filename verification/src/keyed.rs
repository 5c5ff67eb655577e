use vstd::prelude::*;
use crate::lex::{
    lemma_lex_decided, lemma_lex_irreflexive, lemma_lex_transitive, lex_lt, strict_total, views,
    Rank,
};
use crate::text::{
    char_order, lemma_char_order, lemma_list_order, lemma_text_order, list_order, rank_text,
    ranked, text_lt, text_order,
};

verus! {

/// Strict dictionary order on keys: lists of lists of texts.
pub open spec fn key_lt(a: Seq<Seq<Seq<char>>>, b: Seq<Seq<Seq<char>>>) -> bool {
    lex_lt(list_order(), a, b)
}

/// A type whose values are ordered, and told from one another, by a key.
pub trait Keyed: Sized + View {
    /// The key of a value: a fixed number of parts, each a list of texts.
    spec fn key_of(v: Self::V) -> Seq<Seq<Seq<char>>>;

    /// Values with the same key are the same value.
    proof fn lemma_key_of(a: Self::V, b: Self::V)
        requires
            Self::key_of(a) == Self::key_of(b),
        ensures
            a == b,
    ;

    /// Places `self` before, with or after `other` by their keys.
    fn rank(&self, other: &Self) -> (r: Rank)
        ensures
            ranked(list_order(), Self::key_of(self@), Self::key_of(other@), r),
    ;

    /// A copy that holds the same value.
    fn duplicate(&self) -> (r: Self)
        ensures
            r@ == self@,
    ;
}

/// Whether `a` comes strictly before `b` in the order of their keys.
pub open spec fn comes_before<T: Keyed>(a: T::V, b: T::V) -> bool {
    key_lt(T::key_of(a), T::key_of(b))
}

/// Every value comes strictly before all later ones: in order, and none twice.
pub open spec fn sorted<T: Keyed>(vs: Seq<T::V>) -> bool {
    forall|i: int, j: int|
        0 <= i < j < vs.len() ==> comes_before::<T>(#[trigger] vs[i], #[trigger] vs[j])
}

/// The text of a flag as a key part.
pub open spec fn flag_text(b: bool) -> Seq<char> {
    if b {
        seq!['1']
    } else {
        seq!['0']
    }
}

/// Two flags with the same text are the same flag.
pub proof fn lemma_flag_text(a: bool, b: bool)
    ensures
        flag_text(a) == flag_text(b) <==> a == b,
{
    assert(flag_text(a)[0] == if a {
        '1'
    } else {
        '0'
    });
    assert(flag_text(b)[0] == if b {
        '1'
    } else {
        '0'
    });
}

/// Comparing two one-item sequences is comparing their items.
pub proof fn lemma_single<T>(lt: spec_fn(T, T) -> bool, x: T, y: T)
    requires
        strict_total(lt),
    ensures
        lex_lt(lt, seq![x], seq![y]) <==> lt(x, y),
        seq![x] == seq![y] <==> x == y,
{
    let a = seq![x];
    let b = seq![y];
    assert(a[0] == x && b[0] == y);
    assert(a.take(0) =~= b.take(0));
    if x == y {
        assert(a =~= b);
        assert(a.take(1) =~= b.take(1));
        lemma_lex_decided(lt, a, b, 1);
    } else {
        lemma_lex_decided(lt, a, b, 0);
    }
}

/// Places two texts, each taken as a one-item key part.
pub fn rank_single(a: &str, b: &str) -> (r: Rank)
    ensures
        ranked(text_order(), seq![a@], seq![b@], r),
        r == Rank::Same <==> a@ == b@,
{
    let r = rank_text(a, b);
    proof {
        lemma_text_order();
        lemma_single(text_order(), a@, b@);
        lemma_single(text_order(), b@, a@);
    }
    r
}

/// Places two flags, each taken as a one-item key part.
pub fn rank_flag(a: bool, b: bool) -> (r: Rank)
    ensures
        ranked(text_order(), seq![flag_text(a)], seq![flag_text(b)], r),
        r == Rank::Same <==> a == b,
{
    proof {
        lemma_text_order();
        lemma_single(text_order(), flag_text(a), flag_text(b));
        lemma_single(text_order(), flag_text(b), flag_text(a));
        let zero = seq!['0'];
        let one = seq!['1'];
        assert(zero[0] == '0' && one[0] == '1');
        assert(zero.take(0) =~= one.take(0));
        lemma_char_order();
        lemma_lex_decided(char_order(), zero, one, 0);
    }
    if a == b {
        Rank::Same
    } else if b {
        Rank::Before
    } else {
        Rank::After
    }
}

/// Two keys that agree on their first `k` parts are ordered as their parts at `k` are,
/// where those differ.
pub proof fn lemma_key_decided(
    a: Seq<Seq<Seq<char>>>,
    b: Seq<Seq<Seq<char>>>,
    k: int,
    r: Rank,
)
    requires
        0 <= k < a.len(),
        k < b.len(),
        forall|i: int| 0 <= i < k ==> a[i] == b[i],
        ranked(text_order(), a[k], b[k], r),
        r != Rank::Same,
    ensures
        ranked(list_order(), a, b, r),
{
    lemma_list_order();
    assert(a.take(k) =~= b.take(k));
    lemma_lex_decided(list_order(), a, b, k);
}

/// Two keys of the same length whose parts all agree are the same key.
pub proof fn lemma_key_same(a: Seq<Seq<Seq<char>>>, b: Seq<Seq<Seq<char>>>)
    requires
        a.len() == b.len(),
        forall|i: int| 0 <= i < a.len() ==> a[i] == b[i],
    ensures
        ranked(list_order(), a, b, Rank::Same),
{
    lemma_list_order();
    assert(a =~= b);
    assert(a.take(a.len() as int) =~= b.take(a.len() as int));
    lemma_lex_decided(list_order(), a, b, a.len() as int);
}

/// Puts `item` at its place in the sorted vector `v`, unless `v` holds its value already.
/// Returns the place, or `None` where `v` is left as it was.
pub fn insert_keyed<T: Keyed>(v: &mut Vec<T>, item: T) -> (at: Option<usize>)
    requires
        sorted::<T>(views(old(v)@)),
    ensures
        sorted::<T>(views(final(v)@)),
        forall|x: T::V|
            #![trigger views(final(v)@).contains(x)]
            #![trigger views(old(v)@).contains(x)]
            views(final(v)@).contains(x) <==> (views(old(v)@).contains(x) || x == item@),
        views(final(v)@).contains(item@),
        match at {
            Some(p) => p <= old(v).len() && final(v)@ == old(v)@.insert(p as int, item) && !views(
                old(v)@,
            ).contains(item@),
            None => final(v)@ == old(v)@ && views(old(v)@).contains(item@),
        },
{
    let ghost before = v@;
    let ghost vs = views(v@);
    let mut p: usize = 0;
    let mut found = Rank::After;
    while p < v.len()
        invariant_except_break
            found == Rank::After,
        invariant
            v@ == before,
            vs == views(before),
            sorted::<T>(vs),
            p <= v.len(),
            forall|i: int| 0 <= i < p ==> comes_before::<T>(#[trigger] vs[i], item@),
        ensures
            p <= v.len(),
            p < v.len() ==> ranked(list_order(), T::key_of(vs[p as int]), T::key_of(item@), found)
                && found != Rank::Before,
            p == v.len() ==> found == Rank::After,
        decreases v.len() - p,
    {
        found = v[p].rank(&item);
        if found != Rank::Before {
            break ;
        }
        found = Rank::After;
        p = p + 1;
    }
    proof {
        lemma_list_order();
    }
    if found == Rank::Same {
        proof {
            T::lemma_key_of(vs[p as int], item@);
            assert(vs[p as int] == item@);
        }
        return None;
    }
    proof {
        assert forall|i: int| p <= i < vs.len() implies comes_before::<T>(
            item@,
            #[trigger] vs[i],
        ) by {
            if i > p {
                assert(comes_before::<T>(vs[p as int], vs[i]));
                lemma_lex_transitive(
                    list_order(),
                    T::key_of(item@),
                    T::key_of(vs[p as int]),
                    T::key_of(vs[i]),
                );
            }
        }
        assert forall|i: int| 0 <= i < vs.len() implies vs[i] != item@ by {
            lemma_lex_irreflexive(list_order(), T::key_of(item@));
        }
    }
    v.insert(p, item);
    proof {
        let after = views(v@);
        assert(after =~= vs.insert(p as int, item@));
        assert forall|i: int, j: int| 0 <= i < j < after.len() implies comes_before::<T>(
            #[trigger] after[i],
            #[trigger] after[j],
        ) by {
            if i < p && j > p {
                assert(comes_before::<T>(vs[i], item@));
                assert(comes_before::<T>(item@, vs[j - 1]));
                lemma_lex_transitive(
                    list_order(),
                    T::key_of(vs[i]),
                    T::key_of(item@),
                    T::key_of(vs[j - 1]),
                );
            } else if i < p && j < p {
                assert(comes_before::<T>(vs[i], vs[j]));
            } else if i > p {
                assert(comes_before::<T>(vs[i - 1], vs[j - 1]));
            }
        }
        assert forall|x: T::V|
            #![trigger after.contains(x)]
            #![trigger vs.contains(x)]
            after.contains(x) <==> (vs.contains(x) || x == item@) by {
            if after.contains(x) {
                let i = choose|i: int| 0 <= i < after.len() && after[i] == x;
                if i < p {
                    assert(vs[i] == x);
                } else if i > p {
                    assert(vs[i - 1] == x);
                }
            }
            if vs.contains(x) {
                let i = choose|i: int| 0 <= i < vs.len() && vs[i] == x;
                if i < p {
                    assert(after[i] == x);
                } else {
                    assert(after[i + 1] == x);
                }
            }
            if x == item@ {
                assert(after[p as int] == x);
            }
        }
        assert(after[p as int] == item@);
    }
    Some(p)
}

/// Copies a vector item by item.
pub fn copy_all<T: Keyed>(v: &Vec<T>) -> (r: Vec<T>)
    ensures
        views(r@) == views(v@),
{
    let mut r: Vec<T> = Vec::new();
    let mut i: usize = 0;
    while i < v.len()
        invariant
            i <= v.len(),
            views(r@) == views(v@).take(i as int),
        decreases v.len() - i,
    {
        let ghost before = views(r@);
        r.push(v[i].duplicate());
        assert(views(r@) =~= before.push(v[i as int]@));
        i = i + 1;
        assert(views(r@) =~= views(v@).take(i as int));
    }
    assert(views(v@).take(i as int) =~= views(v@));
    r
}

/// Appends copies of all `items` to `v`, in order.
pub fn append_all<T: Keyed>(v: &mut Vec<T>, items: &Vec<T>)
    ensures
        views(final(v)@) == views(old(v)@) + views(items@),
{
    let ghost start = views(v@);
    let mut i: usize = 0;
    assert(views(items@).take(0) =~= Seq::empty());
    assert(start + Seq::<T::V>::empty() =~= start);
    while i < items.len()
        invariant
            i <= items.len(),
            views(v@) == start + views(items@).take(i as int),
        decreases items.len() - i,
    {
        let ghost before = views(v@);
        v.push(items[i].duplicate());
        assert(views(v@) =~= before.push(items[i as int]@));
        i = i + 1;
        assert(views(v@) =~= start + views(items@).take(i as int));
    }
    assert(views(items@).take(i as int) =~= views(items@));
}

impl Keyed for String {
    open spec fn key_of(v: Seq<char>) -> Seq<Seq<Seq<char>>> {
        seq![seq![v]]
    }

    proof fn lemma_key_of(a: Seq<char>, b: Seq<char>) {
        assert(seq![seq![a]][0][0] == a);
        assert(seq![seq![b]][0][0] == b);
    }

    fn rank(&self, other: &Self) -> (r: Rank) {
        let r = rank_single(self.as_str(), other.as_str());
        proof {
            lemma_list_order();
            lemma_single(list_order(), seq![self@], seq![other@]);
            lemma_single(list_order(), seq![other@], seq![self@]);
        }
        r
    }

    fn duplicate(&self) -> (r: Self) {
        self.clone()
    }
}

/// A vector of texts is sorted exactly when each text comes before all later ones.
pub proof fn lemma_sorted_texts(s: Seq<Seq<char>>)
    ensures
        sorted::<String>(s) <==> forall|i: int, j: int|
            0 <= i < j < s.len() ==> text_lt(#[trigger] s[i], #[trigger] s[j]),
{
    lemma_text_order();
    lemma_list_order();
    assert forall|i: int, j: int| 0 <= i < s.len() && 0 <= j < s.len() implies (comes_before::<
        String,
    >(s[i], s[j]) <==> text_lt(s[i], s[j])) by {
        lemma_single(list_order(), seq![s[i]], seq![s[j]]);
        lemma_single(text_order(), s[i], s[j]);
    }
    if sorted::<String>(s) {
        assert forall|i: int, j: int| 0 <= i < j < s.len() implies text_lt(
            #[trigger] s[i],
            #[trigger] s[j],
        ) by {
            assert(comes_before::<String>(s[i], s[j]));
        }
    }
}

impl Keyed for (String, String) {
    open spec fn key_of(v: (Seq<char>, Seq<char>)) -> Seq<Seq<Seq<char>>> {
        seq![seq![v.0], seq![v.1]]
    }

    proof fn lemma_key_of(a: (Seq<char>, Seq<char>), b: (Seq<char>, Seq<char>)) {
        let x = Self::key_of(a);
        let y = Self::key_of(b);
        assert(x[0][0] == a.0 && x[1][0] == a.1);
        assert(y[0][0] == b.0 && y[1][0] == b.1);
    }

    fn rank(&self, other: &Self) -> (r: Rank) {
        let ghost a = Self::key_of(self@);
        let ghost b = Self::key_of(other@);
        let r = rank_single(self.0.as_str(), other.0.as_str());
        if r != Rank::Same {
            proof {
                lemma_key_decided(a, b, 0, r);
            }
            return r;
        }
        let r = rank_single(self.1.as_str(), other.1.as_str());
        if r != Rank::Same {
            proof {
                lemma_key_decided(a, b, 1, r);
            }
            return r;
        }
        proof {
            lemma_key_same(a, b);
        }
        Rank::Same
    }

    fn duplicate(&self) -> (r: Self) {
        (self.0.clone(), self.1.clone())
    }
}

} // verus!
