use vstd::prelude::*;
use crate::keyed::{insert_keyed, sorted, Keyed};
use crate::lex::views;

verus! {

/// The two sequences hold the same values, in whatever order and number.
pub open spec fn same_items<A>(a: Seq<A>, b: Seq<A>) -> bool {
    forall|x: A|
        #![trigger a.contains(x)]
        #![trigger b.contains(x)]
        a.contains(x) <==> b.contains(x)
}

/// The items of all the lists, list after list.
pub open spec fn gather<A>(lists: Seq<Seq<A>>) -> Seq<A>
    decreases lists.len(),
{
    if lists.len() == 0 {
        Seq::empty()
    } else {
        gather(lists.drop_last()) + lists.last()
    }
}

/// An item is in a concatenation exactly when it is in one of the two parts.
pub proof fn lemma_contains_add<A>(a: Seq<A>, b: Seq<A>)
    ensures
        forall|x: A| (a + b).contains(x) <==> a.contains(x) || b.contains(x),
{
    assert forall|x: A| (a + b).contains(x) <==> a.contains(x) || b.contains(x) by {
        if (a + b).contains(x) {
            let i = choose|i: int| 0 <= i < (a + b).len() && (a + b)[i] == x;
            if i < a.len() {
                assert(a[i] == x);
            } else {
                assert(b[i - a.len()] == x);
            }
        }
        if a.contains(x) {
            let i = choose|i: int| 0 <= i < a.len() && a[i] == x;
            assert((a + b)[i] == x);
        }
        if b.contains(x) {
            let i = choose|i: int| 0 <= i < b.len() && b[i] == x;
            assert((a + b)[a.len() + i] == x);
        }
    }
}

/// Gathering one more list appends it.
pub proof fn lemma_gather_push<A>(lists: Seq<Seq<A>>, last: Seq<A>)
    ensures
        gather(lists.push(last)) == gather(lists) + last,
{
    assert(lists.push(last).drop_last() =~= lists);
    assert(lists.push(last).last() == last);
}

/// An item is gathered exactly when one of the lists holds it.
pub proof fn lemma_gather_contains<A>(lists: Seq<Seq<A>>)
    ensures
        forall|x: A|
            gather(lists).contains(x) <==> exists|i: int|
                0 <= i < lists.len() && (#[trigger] lists[i]).contains(x),
    decreases lists.len(),
{
    if lists.len() == 0 {
        assert forall|x: A| !gather(lists).contains(x) by {}
    } else {
        let front = lists.drop_last();
        lemma_gather_contains(front);
        lemma_contains_add(gather(front), lists.last());
        assert forall|x: A|
            gather(lists).contains(x) <==> exists|i: int|
                0 <= i < lists.len() && (#[trigger] lists[i]).contains(x) by {
            if gather(front).contains(x) {
                let i = choose|i: int| 0 <= i < front.len() && (#[trigger] front[i]).contains(x);
                assert(lists[i].contains(x));
            }
            if lists.last().contains(x) {
                assert(lists[lists.len() - 1].contains(x));
            }
            if exists|i: int| 0 <= i < lists.len() && (#[trigger] lists[i]).contains(x) {
                let i = choose|i: int| 0 <= i < lists.len() && (#[trigger] lists[i]).contains(x);
                if i < front.len() {
                    assert(front[i].contains(x));
                }
            }
        }
    }
}

/// Puts every item of `items` at its place in the sorted vector `set`, each value once.
pub fn insert_all<T: Keyed>(set: &mut Vec<T>, items: &Vec<T>)
    requires
        sorted::<T>(views(old(set)@)),
    ensures
        sorted::<T>(views(final(set)@)),
        forall|x: T::V|
            #![trigger views(final(set)@).contains(x)]
            #![trigger views(old(set)@).contains(x)]
            #![trigger views(items@).contains(x)]
            views(final(set)@).contains(x) <==> (views(old(set)@).contains(x) || views(
                items@,
            ).contains(x)),
{
    let ghost start = views(set@);
    let ghost all = views(items@);
    let mut i: usize = 0;
    while i < items.len()
        invariant
            i <= items.len(),
            all == views(items@),
            sorted::<T>(views(set@)),
            forall|x: T::V|
                #![trigger views(set@).contains(x)]
                #![trigger start.contains(x)]
                #![trigger all.take(i as int).contains(x)]
                views(set@).contains(x) <==> (start.contains(x) || all.take(i as int).contains(x)),
        decreases items.len() - i,
    {
        let ghost before = views(set@);
        let item = items[i].duplicate();
        let ghost added = item@;
        insert_keyed(set, item);
        proof {
            assert(added == all[i as int]);
            let now = views(set@);
            let less = all.take(i as int);
            let more = all.take(i + 1);
            assert(more =~= less.push(all[i as int]));
            assert forall|x: T::V|
                #![trigger now.contains(x)]
                #![trigger start.contains(x)]
                #![trigger more.contains(x)]
                now.contains(x) <==> (start.contains(x) || more.contains(x)) by {
                assert(now.contains(x) <==> (before.contains(x) || x == added));
                assert(before.contains(x) <==> (start.contains(x) || less.contains(x)));
                if more.contains(x) {
                    let k = choose|k: int| 0 <= k < more.len() && more[k] == x;
                    if k < i {
                        assert(less[k] == x);
                    }
                }
                if less.contains(x) {
                    let k = choose|k: int| 0 <= k < less.len() && less[k] == x;
                    assert(more[k] == x);
                }
                if x == all[i as int] {
                    assert(more[i as int] == x);
                }
            }
        }
        i = i + 1;
    }
    assert(all.len() == items.len());
    assert(all.take(i as int) =~= all);
    assert(start == views(old(set)@));
}

} // verus!
