use vstd::prelude::*;

verus! {

/// Outcome of comparing two values in a strict total order.
#[derive(Clone, Copy, Debug, PartialEq, Eq, Structural)]
pub enum Rank {
    Before,
    Same,
    After,
}

/// The views of the items of `v`, in order.
pub open spec fn views<T: View>(v: Seq<T>) -> Seq<T::V> {
    v.map_values(|x: T| x@)
}

/// A relation that is irreflexive, transitive, and relates any two distinct values.
pub open spec fn strict_total<T>(lt: spec_fn(T, T) -> bool) -> bool {
    &&& forall|x: T| !#[trigger] lt(x, x)
    &&& forall|x: T, y: T| x == y || #[trigger] lt(x, y) || #[trigger] lt(y, x)
    &&& forall|x: T, y: T, z: T| #[trigger] lt(x, y) && #[trigger] lt(y, z) ==> lt(x, z)
}

/// `a` and `b` agree on their first `k` items, and at position `k` either
/// `a` ends while `b` goes on, or `a` holds the smaller item.
pub open spec fn lex_lt_at<T>(lt: spec_fn(T, T) -> bool, a: Seq<T>, b: Seq<T>, k: int) -> bool {
    &&& 0 <= k <= a.len()
    &&& k < b.len()
    &&& a.take(k) == b.take(k)
    &&& (k < a.len() ==> lt(a[k], b[k]))
}

/// Dictionary order on sequences over an order `lt` of their items.
pub open spec fn lex_lt<T>(lt: spec_fn(T, T) -> bool, a: Seq<T>, b: Seq<T>) -> bool {
    exists|k: int| lex_lt_at(lt, a, b, k)
}

/// A prefix of a common prefix is common too.
pub proof fn lemma_take_shorter<T>(a: Seq<T>, b: Seq<T>, k: int, j: int)
    requires
        0 <= j <= k <= a.len(),
        k <= b.len(),
        a.take(k) == b.take(k),
    ensures
        a.take(j) == b.take(j),
        forall|i: int| 0 <= i < k ==> a[i] == b[i],
{
    assert forall|i: int| 0 <= i < k implies a[i] == b[i] by {
        assert(a.subrange(0, k)[i] == a[i]);
        assert(b.subrange(0, k)[i] == b[i]);
    }
    assert(a.take(j) =~= b.take(j));
}

/// The end of the longest common prefix of `a` and `b`, searched from `k` on.
pub proof fn lemma_common_prefix<T>(a: Seq<T>, b: Seq<T>, k: int) -> (r: int)
    requires
        0 <= k <= a.len(),
        k <= b.len(),
        a.take(k) == b.take(k),
    ensures
        k <= r <= a.len(),
        r <= b.len(),
        a.take(r) == b.take(r),
        r < a.len() && r < b.len() ==> a[r] != b[r],
    decreases a.len() - k,
{
    if k < a.len() && k < b.len() && a[k] == b[k] {
        lemma_take_shorter(a, b, k, k);
        assert(a.take(k + 1) =~= b.take(k + 1));
        lemma_common_prefix(a, b, k + 1)
    } else {
        k
    }
}

/// Once two sequences agree up to `k` and part ways there, `k` settles their order.
pub proof fn lemma_lex_decided<T>(lt: spec_fn(T, T) -> bool, a: Seq<T>, b: Seq<T>, k: int)
    requires
        strict_total(lt),
        0 <= k <= a.len(),
        k <= b.len(),
        a.take(k) == b.take(k),
        k < a.len() && k < b.len() ==> a[k] != b[k],
    ensures
        (a == b) <==> (k == a.len() && k == b.len()),
        lex_lt(lt, a, b) <==> (k < b.len() && (k == a.len() || lt(a[k], b[k]))),
        lex_lt(lt, b, a) <==> (k < a.len() && (k == b.len() || lt(b[k], a[k]))),
        a == b || lex_lt(lt, a, b) || lex_lt(lt, b, a),
        !(lex_lt(lt, a, b) && lex_lt(lt, b, a)),
        a == b ==> !lex_lt(lt, a, b) && !lex_lt(lt, b, a),
{
    assert(b.take(k) == a.take(k));
    if k == a.len() && k == b.len() {
        assert(a =~= a.take(k));
        assert(b =~= b.take(k));
    }
    if k < a.len() && k < b.len() {
        assert(lt(a[k], b[k]) || lt(b[k], a[k]));
        assert(!(lt(a[k], b[k]) && lt(b[k], a[k]))) by {
            if lt(a[k], b[k]) && lt(b[k], a[k]) {
                assert(lt(a[k], a[k]));
            }
        }
    }
    if k < b.len() && (k == a.len() || lt(a[k], b[k])) {
        assert(lex_lt_at(lt, a, b, k));
    }
    if k < a.len() && (k == b.len() || lt(b[k], a[k])) {
        assert(lex_lt_at(lt, b, a, k));
    }
    assert forall|j: int| lex_lt_at(lt, a, b, j) implies j == k by {
        lemma_witness_unique(lt, a, b, j, k);
    }
    assert forall|j: int| lex_lt_at(lt, b, a, j) implies j == k by {
        lemma_witness_unique(lt, b, a, j, k);
    }
}

/// A position that witnesses the order is the end of the longest common prefix.
proof fn lemma_witness_unique<T>(lt: spec_fn(T, T) -> bool, a: Seq<T>, b: Seq<T>, j: int, k: int)
    requires
        strict_total(lt),
        lex_lt_at(lt, a, b, j),
        0 <= k <= a.len(),
        k <= b.len(),
        a.take(k) == b.take(k),
        k < a.len() && k < b.len() ==> a[k] != b[k],
    ensures
        j == k,
{
    if j < k {
        lemma_take_shorter(a, b, k, j);
        assert(a[j] == b[j]);
        assert(!lt(a[j], a[j]));
    } else if k < j {
        lemma_take_shorter(a, b, j, k);
    }
}

/// No sequence comes before itself.
pub proof fn lemma_lex_irreflexive<T>(lt: spec_fn(T, T) -> bool, a: Seq<T>)
    requires
        strict_total(lt),
    ensures
        !lex_lt(lt, a, a),
{
    lemma_lex_decided(lt, a, a, a.len() as int);
}

/// Two sequences are equal, or one comes before the other, and never both ways.
pub proof fn lemma_lex_total<T>(lt: spec_fn(T, T) -> bool, a: Seq<T>, b: Seq<T>)
    requires
        strict_total(lt),
    ensures
        a == b || lex_lt(lt, a, b) || lex_lt(lt, b, a),
        !(lex_lt(lt, a, b) && lex_lt(lt, b, a)),
        a == b ==> !lex_lt(lt, a, b),
{
    assert(a.take(0) =~= b.take(0));
    let k = lemma_common_prefix(a, b, 0);
    lemma_lex_decided(lt, a, b, k);
}

/// Dictionary order is transitive.
pub proof fn lemma_lex_transitive<T>(lt: spec_fn(T, T) -> bool, a: Seq<T>, b: Seq<T>, c: Seq<T>)
    requires
        strict_total(lt),
        lex_lt(lt, a, b),
        lex_lt(lt, b, c),
    ensures
        lex_lt(lt, a, c),
{
    let k1 = choose|k: int| lex_lt_at(lt, a, b, k);
    let k2 = choose|k: int| lex_lt_at(lt, b, c, k);
    let k = if k1 <= k2 { k1 } else { k2 };
    lemma_take_shorter(a, b, k1, k);
    lemma_take_shorter(b, c, k2, k);
    if k < a.len() {
        if k1 < k2 {
            assert(lt(a[k], b[k]));
            assert(b[k] == c[k]);
        } else if k1 == k2 {
            assert(lt(a[k], b[k]) && lt(b[k], c[k]));
        } else {
            assert(a[k] == b[k]);
            assert(lt(b[k], c[k]));
        }
    }
    assert(lex_lt_at(lt, a, c, k));
}

} // verus!
