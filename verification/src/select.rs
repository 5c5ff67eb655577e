use vstd::prelude::*;
use crate::keyed::{insert_keyed, sorted, Keyed};
use crate::lex::views;

verus! {

/// A rule that takes some values of a pool and says what each comes out as.
pub trait Pick<T: Keyed> {
    /// Whether the rule takes the value.
    spec fn accepts(&self, v: T::V) -> bool;

    /// What a taken value comes out as.
    spec fn shaped(&self, v: T::V) -> T::V;

    fn test(&self, item: &T) -> (r: bool)
        ensures
            r == self.accepts(item@),
    ;

    fn shape(&self, item: &T) -> (r: T)
        ensures
            r@ == self.shaped(item@),
    ;
}

/// `x` is what some value of the pool that the rule takes comes out as.
pub open spec fn picked<T: Keyed, P: Pick<T>>(pool: Seq<T::V>, p: P, x: T::V) -> bool {
    exists|i: int| 0 <= i < pool.len() && p.accepts(#[trigger] pool[i]) && p.shaped(pool[i]) == x
}

/// Where the rule leaves values as they are, what it picks is what the pool holds
/// and the rule takes.
pub proof fn lemma_picked_plain<T: Keyed, P: Pick<T>>(pool: Seq<T::V>, p: P, x: T::V)
    requires
        forall|v: T::V| #[trigger] p.shaped(v) == v,
    ensures
        picked(pool, p, x) <==> (pool.contains(x) && p.accepts(x)),
{
    if picked(pool, p, x) {
        let i = choose|i: int|
            0 <= i < pool.len() && p.accepts(#[trigger] pool[i]) && p.shaped(pool[i]) == x;
        assert(pool[i] == x);
    }
    if pool.contains(x) && p.accepts(x) {
        let i = choose|i: int| 0 <= i < pool.len() && pool[i] == x;
        assert(p.accepts(pool[i]) && p.shaped(pool[i]) == x);
    }
}

/// `x` is what some value of the pool that `accept` takes comes out as under `shape`.
pub open spec fn reported<V>(
    pool: Seq<V>,
    accept: spec_fn(V) -> bool,
    shape: spec_fn(V) -> V,
    x: V,
) -> bool {
    exists|i: int| 0 <= i < pool.len() && accept(#[trigger] pool[i]) && shape(pool[i]) == x
}

/// What a rule picks is what is reported under its two functions.
pub proof fn lemma_picked_reported<T: Keyed, P: Pick<T>>(
    pool: Seq<T::V>,
    p: P,
    accept: spec_fn(T::V) -> bool,
    shape: spec_fn(T::V) -> T::V,
    x: T::V,
)
    requires
        forall|v: T::V| #[trigger] p.accepts(v) == accept(v),
        forall|v: T::V| #[trigger] p.shaped(v) == shape(v),
    ensures
        picked(pool, p, x) <==> reported(pool, accept, shape, x),
{
    if picked(pool, p, x) {
        let i = choose|i: int|
            0 <= i < pool.len() && p.accepts(#[trigger] pool[i]) && p.shaped(pool[i]) == x;
        assert(accept(pool[i]) && shape(pool[i]) == x);
    }
    if reported(pool, accept, shape, x) {
        let i = choose|i: int|
            0 <= i < pool.len() && accept(#[trigger] pool[i]) && shape(pool[i]) == x;
        assert(p.accepts(pool[i]) && p.shaped(pool[i]) == x);
    }
}

/// What a query owes: the values that it is asked for, each once, in the order of
/// their keys.
pub open spec fn answer<T: Keyed>(r: Seq<T::V>, hit: spec_fn(T::V) -> bool) -> bool {
    &&& sorted::<T>(r)
    &&& forall|x: T::V| #![trigger r.contains(x)] #![trigger hit(x)] r.contains(x) <==> hit(x)
}

/// Puts what the rule takes of the pool into the sorted vector `out`, each value once.
pub fn select<T: Keyed, P: Pick<T>>(out: &mut Vec<T>, pool: &Vec<T>, p: &P)
    requires
        sorted::<T>(views(old(out)@)),
    ensures
        sorted::<T>(views(final(out)@)),
        forall|x: T::V|
            #![trigger views(final(out)@).contains(x)]
            #![trigger views(old(out)@).contains(x)]
            #![trigger picked(views(pool@), *p, x)]
            views(final(out)@).contains(x) <==> (views(old(out)@).contains(x) || picked(
                views(pool@),
                *p,
                x,
            )),
{
    let ghost start = views(out@);
    let ghost all = views(pool@);
    let mut i: usize = 0;
    while i < pool.len()
        invariant
            i <= pool.len(),
            all == views(pool@),
            sorted::<T>(views(out@)),
            forall|x: T::V|
                #![trigger views(out@).contains(x)]
                #![trigger start.contains(x)]
                #![trigger picked(all.take(i as int), *p, x)]
                views(out@).contains(x) <==> (start.contains(x) || picked(
                    all.take(i as int),
                    *p,
                    x,
                )),
        decreases pool.len() - i,
    {
        let ghost before = views(out@);
        let ghost less = all.take(i as int);
        let ghost more = all.take(i + 1);
        let taken = p.test(&pool[i]);
        let ghost added = p.shaped(all[i as int]);
        if taken {
            let item = p.shape(&pool[i]);
            insert_keyed(out, item);
        }
        proof {
            let now = views(out@);
            assert(more =~= less.push(all[i as int]));
            assert forall|x: T::V|
                #![trigger now.contains(x)]
                #![trigger start.contains(x)]
                #![trigger picked(more, *p, x)]
                now.contains(x) <==> (start.contains(x) || picked(more, *p, x)) by {
                assert(now.contains(x) <==> (before.contains(x) || (taken && x == added)));
                assert(before.contains(x) <==> (start.contains(x) || picked(less, *p, x)));
                if picked(less, *p, x) {
                    let k = choose|k: int|
                        0 <= k < less.len() && p.accepts(#[trigger] less[k]) && p.shaped(less[k])
                            == x;
                    assert(more[k] == less[k]);
                }
                if picked(more, *p, x) {
                    let k = choose|k: int|
                        0 <= k < more.len() && p.accepts(#[trigger] more[k]) && p.shaped(more[k])
                            == x;
                    if k < i {
                        assert(less[k] == more[k]);
                    }
                }
                if taken && x == added {
                    assert(more[i as int] == all[i as int]);
                }
            }
        }
        i = i + 1;
    }
    assert(all.take(i as int) =~= all);
}

} // verus!
