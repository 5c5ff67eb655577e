use vstd::prelude::*;
use crate::bundle::BundleView;
use crate::enterprise::{technique_key, EnterpriseTechnique, TechniqueView};
use crate::gather::{gather, lemma_gather_contains, same_items};
use crate::ingest::{
    all_records, child_of, datasources_of, is_baseline_of, or_empty, platforms_of, records_of,
    with_children,
};
use crate::normalizer::{hyphenated, lemma_hyphenated_idempotent, lowercase_of, normalized_all};
use crate::keyed::{comes_before, lemma_single, sorted, Keyed};
use crate::lex::{lemma_lex_irreflexive, lemma_lex_total, lemma_take_shorter, lex_lt_at};
use crate::searcher::{active_hit, hits_id};
use crate::select::answer;
use crate::parser::{unspaced, sound_record, stats_of, tids, well_formed, BaselineView};
use crate::stats::{
    category, category_rows, identifiers, known_platforms, known_tactics, lemma_pairs_finite,
    lemma_pairs_step, pair_of, pairs, selects, tally, CategoryCountView, SelectorView,
};
use crate::text::{lemma_list_order, lemma_text_order, list_order, text_lt, text_order};

verus! {

/// Two sorted sequences that hold the same values are the same sequence.
pub proof fn lemma_sorted_unique<T: Keyed>(a: Seq<T::V>, b: Seq<T::V>)
    requires
        sorted::<T>(a),
        sorted::<T>(b),
        same_items(a, b),
    ensures
        a == b,
    decreases a.len(),
{
    lemma_list_order();
    if a.len() == 0 {
        if b.len() > 0 {
            assert(b.contains(b[0]));
            assert(a.contains(b[0]));
        }
        assert(a =~= b);
    } else {
        assert(a.contains(a[0]));
        assert(b.contains(a[0]));
        let j = choose|j: int| 0 <= j < b.len() && b[j] == a[0];
        assert(b.contains(b[0]));
        assert(a.contains(b[0]));
        let i = choose|i: int| 0 <= i < a.len() && a[i] == b[0];
        if i > 0 && j > 0 {
            assert(comes_before::<T>(a[0], a[i]));
            assert(comes_before::<T>(b[0], b[j]));
            lemma_lex_total(list_order(), T::key_of(a[0]), T::key_of(b[0]));
        }
        assert(a[0] == b[0]);
        let x = a.drop_first();
        let y = b.drop_first();
        assert forall|m: int, n: int| 0 <= m < n < x.len() implies comes_before::<T>(
            #[trigger] x[m],
            #[trigger] x[n],
        ) by {
            assert(comes_before::<T>(a[m + 1], a[n + 1]));
        }
        assert forall|m: int, n: int| 0 <= m < n < y.len() implies comes_before::<T>(
            #[trigger] y[m],
            #[trigger] y[n],
        ) by {
            assert(comes_before::<T>(b[m + 1], b[n + 1]));
        }
        assert forall|v: T::V|
            #![trigger x.contains(v)]
            #![trigger y.contains(v)]
            x.contains(v) <==> y.contains(v) by {
            lemma_lex_irreflexive(list_order(), T::key_of(v));
            if x.contains(v) {
                let m = choose|m: int| 0 <= m < x.len() && x[m] == v;
                assert(a[m + 1] == v);
                assert(a.contains(v));
                assert(b.contains(v));
                let n = choose|n: int| 0 <= n < b.len() && b[n] == v;
                if n == 0 {
                    assert(comes_before::<T>(a[0], a[m + 1]));
                }
                assert(y[n - 1] == v);
            }
            if y.contains(v) {
                let n = choose|n: int| 0 <= n < y.len() && y[n] == v;
                assert(b[n + 1] == v);
                assert(b.contains(v));
                assert(a.contains(v));
                let m = choose|m: int| 0 <= m < a.len() && a[m] == v;
                if m == 0 {
                    assert(comes_before::<T>(b[0], b[n + 1]));
                }
                assert(x[m - 1] == v);
            }
        }
        lemma_sorted_unique::<T>(x, y);
        assert(a =~= seq![a[0]] + x);
        assert(b =~= seq![b[0]] + y);
    }
}

/// A query has one answer: two results that both are what the query owes are the
/// same, whatever the order in which the values are stored.
pub proof fn lemma_answer_is_determined<T: Keyed>(
    a: Seq<T::V>,
    b: Seq<T::V>,
    hit: spec_fn(T::V) -> bool,
)
    requires
        answer::<T>(a, hit),
        answer::<T>(b, hit),
    ensures
        a == b,
{
    assert forall|x: T::V| #![trigger a.contains(x)] #![trigger b.contains(x)] a.contains(x)
        <==> b.contains(x) by {
        assert(a.contains(x) <==> hit(x));
        assert(b.contains(x) <==> hit(x));
    }
    lemma_sorted_unique::<T>(a, b);
}

/// A sorted sequence holds no value twice.
pub proof fn lemma_sorted_no_duplicates<T: Keyed>(vs: Seq<T::V>)
    requires
        sorted::<T>(vs),
    ensures
        vs.no_duplicates(),
{
    lemma_list_order();
    assert forall|i: int, j: int| 0 <= i < vs.len() && 0 <= j < vs.len() && i != j implies vs[i]
        != vs[j] by {
        lemma_lex_irreflexive(list_order(), T::key_of(vs[i]));
        if i < j {
            assert(comes_before::<T>(vs[i], vs[j]));
        } else {
            assert(comes_before::<T>(vs[j], vs[i]));
        }
    }
}

/// Sorted technique records come in the order of their identifiers: of two records
/// the earlier has the same identifier as the later, or one that comes before it.
pub proof fn lemma_sorted_by_identifier(rs: Seq<TechniqueView>)
    requires
        sorted::<EnterpriseTechnique>(rs),
    ensures
        forall|i: int, j: int|
            0 <= i < j < rs.len() ==> (#[trigger] rs[i]).tid == (#[trigger] rs[j]).tid || text_lt(
                rs[i].tid,
                rs[j].tid,
            ),
{
    lemma_text_order();
    lemma_list_order();
    assert forall|i: int, j: int| 0 <= i < j < rs.len() implies (#[trigger] rs[i]).tid == (
    #[trigger] rs[j]).tid || text_lt(rs[i].tid, rs[j].tid) by {
        assert(comes_before::<EnterpriseTechnique>(rs[i], rs[j]));
        let a = technique_key(rs[i]);
        let b = technique_key(rs[j]);
        let k = choose|k: int| lex_lt_at(list_order(), a, b, k);
        if k == 0 {
            lemma_single(text_order(), rs[i].tid, rs[j].tid);
        } else {
            lemma_take_shorter(a, b, k, 1);
            assert(a[0] == b[0]);
            assert(a[0][0] == rs[i].tid);
            assert(b[0][0] == rs[j].tid);
        }
    }
}

/// One bundle has one snapshot: whatever two ingestions of the same objects leave is
/// the same, field for field.
pub proof fn lemma_ingestion_is_determined(objs: Seq<BundleView>, a: BaselineView, b: BaselineView)
    requires
        is_baseline_of(a, objs),
        is_baseline_of(b, objs),
    ensures
        a == b,
{
    lemma_sorted_unique::<String>(a.tactics, b.tactics);
    lemma_sorted_unique::<String>(a.platforms, b.platforms);
    lemma_sorted_unique::<String>(a.datasources, b.datasources);
    lemma_sorted_unique::<(String, String)>(a.revoked_techniques, b.revoked_techniques);
    lemma_sorted_unique::<String>(a.uniques_techniques, b.uniques_techniques);
    lemma_sorted_unique::<String>(a.uniques_subtechniques, b.uniques_subtechniques);
    assert(a.breakdown_techniques == b.breakdown_techniques);
    assert(stats_of(a) == stats_of(b));
}

/// A normalized name is free of spaces and slashes.
proof fn lemma_normalized_unspaced(names: Seq<Seq<char>>)
    ensures
        unspaced(normalized_all(names)),
{
    assert forall|k: int| 0 <= k < normalized_all(names).len() implies hyphenated(
        #[trigger] normalized_all(names)[k],
    ) == normalized_all(names)[k] by {
        lemma_hyphenated_idempotent(lowercase_of(names[k]));
    }
}

/// Every item of a sorted set of gathered lists is an item of one of the lists.
proof fn lemma_gathered_unspaced(set: Seq<Seq<char>>, lists: Seq<Seq<Seq<char>>>)
    requires
        same_items(set, gather(lists)),
        forall|n: int| 0 <= n < lists.len() ==> unspaced(#[trigger] lists[n]),
    ensures
        unspaced(set),
{
    lemma_gather_contains(lists);
    assert forall|k: int| 0 <= k < set.len() implies hyphenated(#[trigger] set[k]) == set[k] by {
        assert(set.contains(set[k]));
        assert(gather(lists).contains(set[k]));
        let n = choose|n: int| 0 <= n < lists.len() && (#[trigger] lists[n]).contains(set[k]);
        let m = choose|m: int| 0 <= m < lists[n].len() && lists[n][m] == set[k];
        assert(unspaced(lists[n]));
    }
}

/// Every record that the objects add is a record of one of them, as it was built.
proof fn lemma_plain_records(objs: Seq<BundleView>, sub: bool, i: int)
    requires
        0 <= i < all_records(objs, sub).len(),
    ensures
        ({
            let t = all_records(objs, sub)[i];
            &&& !t.has_subtechniques
            &&& t.subtechniques.len() == 0
            &&& !t.is_revoked
            &&& !t.is_deprecated
            &&& unspaced(t.platforms)
            &&& unspaced(t.datasources)
        }),
{
    let lists = objs.map_values(|o: BundleView| records_of(o, sub));
    lemma_gather_contains(lists);
    let t = all_records(objs, sub)[i];
    assert(all_records(objs, sub).contains(t));
    let n = choose|n: int| 0 <= n < lists.len() && (#[trigger] lists[n]).contains(t);
    let k = choose|k: int| 0 <= k < lists[n].len() && lists[n][k] == t;
    assert(lists[n] == records_of(objs[n], sub));
    lemma_normalized_unspaced(or_empty(objs[n].platforms));
    lemma_normalized_unspaced(or_empty(objs[n].data_sources));
}

/// A snapshot that ingestion left is well formed: in particular every record says
/// that it has subtechniques exactly when it lists some, and its identifier opens
/// every subtechnique that it lists.
pub proof fn lemma_ingestion_is_well_formed(objs: Seq<BundleView>, b: BaselineView)
    requires
        is_baseline_of(b, objs),
    ensures
        well_formed(b),
{
    let plain = all_records(objs, false);
    let subs = all_records(objs, true);
    assert forall|i: int| 0 <= i < b.breakdown_techniques.len() implies sound_record(
        #[trigger] b.breakdown_techniques[i],
    ) by {
        let t = b.breakdown_techniques[i];
        assert(t == with_children(plain[i], b.uniques_subtechniques));
        lemma_plain_records(objs, false, i);
        let pred = child_of(plain[i].tid);
        assert forall|k: int| 0 <= k < t.subtechniques.len() implies t.tid.is_prefix_of(
            #[trigger] t.subtechniques[k],
        ) by {
            b.uniques_subtechniques.lemma_filter_pred(pred, k);
        }
    }
    assert forall|i: int| 0 <= i < b.breakdown_subtechniques.len() implies sound_record(
        #[trigger] b.breakdown_subtechniques[i],
    ) by {
        lemma_plain_records(objs, true, i);
    }
    let listed = b.breakdown_techniques;
    assert forall|i: int, k: int|
        0 <= i < listed.len() && 0 <= k < listed[i].subtechniques.len()
            implies b.uniques_subtechniques.contains(#[trigger] listed[i].subtechniques[k]) by {
        let t = b.breakdown_techniques[i];
        assert(t == with_children(plain[i], b.uniques_subtechniques));
        let pred = child_of(plain[i].tid);
        let kids = b.uniques_subtechniques.filter(pred);
        assert(kids.contains(kids[k]));
        b.uniques_subtechniques.lemma_filter_contains_rev(pred, kids[k]);
    }
    assert(tids(b.breakdown_techniques) =~= tids(plain));
    let platform_lists = objs.map_values(|o: BundleView| platforms_of(o));
    assert forall|n: int| 0 <= n < platform_lists.len() implies unspaced(
        #[trigger] platform_lists[n],
    ) by {
        lemma_normalized_unspaced(or_empty(objs[n].platforms));
    }
    lemma_gathered_unspaced(b.platforms, platform_lists);
    let datasource_lists = objs.map_values(|o: BundleView| datasources_of(o));
    assert forall|n: int| 0 <= n < datasource_lists.len() implies unspaced(
        #[trigger] datasource_lists[n],
    ) by {
        lemma_normalized_unspaced(or_empty(objs[n].data_sources));
    }
    lemma_gathered_unspaced(b.datasources, datasource_lists);
}

/// The sum of the counts of the rows.
pub open spec fn sum_counts(rows: Seq<CategoryCountView>) -> nat
    decreases rows.len(),
{
    if rows.len() == 0 {
        0
    } else {
        sum_counts(rows.drop_last()) + rows.last().count
    }
}

/// The record is on one of the named platforms.
pub open spec fn on_some(t: TechniqueView, names: Seq<Seq<char>>) -> bool {
    exists|j: int| 0 <= j < names.len() && t.platforms.contains(#[trigger] names[j])
}

/// The sum of the tallies of the first `k` named platforms, or else tactics.
pub open spec fn sum_tally(
    rs: Seq<TechniqueView>,
    by_platform: bool,
    names: Seq<Seq<char>>,
    k: int,
) -> nat
    decreases k,
{
    if k <= 0 {
        0
    } else {
        sum_tally(rs, by_platform, names, k - 1) + tally(rs, category(by_platform, names[k - 1]))
    }
}

/// The counts of the first `k` rows add up to the tallies of the first `k` categories.
proof fn lemma_sum_counts(
    rs: Seq<TechniqueView>,
    by_platform: bool,
    names: Seq<Seq<char>>,
    k: int,
)
    requires
        0 <= k <= names.len(),
    ensures
        sum_counts(category_rows(rs, by_platform, names).take(k)) == sum_tally(
            rs,
            by_platform,
            names,
            k,
        ),
    decreases k,
{
    let rows = category_rows(rs, by_platform, names);
    if k > 0 {
        lemma_sum_counts(rs, by_platform, names, k - 1);
        assert(rows.take(k).drop_last() =~= rows.take(k - 1));
        assert(rows.take(k).last() == rows[k - 1]);
    }
}

/// Taking one more record in adds its identifier, and nothing else.
proof fn lemma_identifiers_step(rs: Seq<TechniqueView>, n: int)
    requires
        0 <= n < rs.len(),
    ensures
        identifiers(rs.take(n + 1)) == identifiers(rs.take(n)).insert(rs[n].tid),
{
    let more = rs.take(n + 1);
    let less = rs.take(n);
    let grown = identifiers(less).insert(rs[n].tid);
    assert forall|id: Seq<char>| identifiers(more).contains(id) implies grown.contains(id) by {
        let i = choose|i: int| 0 <= i < more.len() && (#[trigger] more[i]).tid == id;
        if i < n {
            assert(less[i] == more[i]);
        }
    }
    assert forall|id: Seq<char>| grown.contains(id) implies identifiers(more).contains(id) by {
        if identifiers(less).contains(id) {
            let i = choose|i: int| 0 <= i < less.len() && (#[trigger] less[i]).tid == id;
            assert(more[i] == less[i]);
        } else {
            assert(more[n] == rs[n]);
        }
    }
    assert(identifiers(more) =~= grown);
}

/// With one more record no tally shrinks, and that of a platform the record is on
/// grows by one where its identifier is new.
proof fn lemma_tally_step(rs: Seq<TechniqueView>, n: int, p: Seq<char>)
    requires
        0 <= n < rs.len(),
    ensures
        tally(rs.take(n + 1), SelectorView::Platform(p)) >= tally(
            rs.take(n),
            SelectorView::Platform(p),
        ),
        rs[n].platforms.contains(p) && !identifiers(rs.take(n)).contains(rs[n].tid) ==> tally(
            rs.take(n + 1),
            SelectorView::Platform(p),
        ) == tally(rs.take(n), SelectorView::Platform(p)) + 1,
{
    let sel = SelectorView::Platform(p);
    let less = rs.take(n);
    lemma_pairs_step(rs, sel, n);
    lemma_pairs_finite(rs, sel, n);
    if pairs(less, sel).contains(pair_of(rs[n])) {
        let i = choose|i: int|
            0 <= i < less.len() && selects(sel, #[trigger] less[i]) && pair_of(less[i]) == pair_of(
                rs[n],
            );
        assert(less[i].tid == rs[n].tid);
        assert(identifiers(less).contains(rs[n].tid));
    }
}

/// With one more record whose identifier is new, the tallies of the first `k`
/// platforms grow by at least one once `k` is past a platform that the record is on.
proof fn lemma_sum_tally_step(
    rs: Seq<TechniqueView>,
    names: Seq<Seq<char>>,
    n: int,
    k: int,
    at: int,
)
    requires
        0 <= n < rs.len(),
        0 <= k <= names.len(),
        0 <= at < names.len(),
        rs[n].platforms.contains(names[at]),
        !identifiers(rs.take(n)).contains(rs[n].tid),
    ensures
        sum_tally(rs.take(n + 1), true, names, k) >= sum_tally(rs.take(n), true, names, k)
            + if at < k {
            1nat
        } else {
            0nat
        },
    decreases k,
{
    if k > 0 {
        lemma_sum_tally_step(rs, names, n, k - 1, at);
        lemma_tally_step(rs, n, names[k - 1]);
    }
}

/// With one more record the tallies of the first `k` platforms do not shrink.
proof fn lemma_sum_tally_grows(rs: Seq<TechniqueView>, names: Seq<Seq<char>>, n: int, k: int)
    requires
        0 <= n < rs.len(),
        0 <= k <= names.len(),
    ensures
        sum_tally(rs.take(n + 1), true, names, k) >= sum_tally(rs.take(n), true, names, k),
    decreases k,
{
    if k > 0 {
        lemma_sum_tally_grows(rs, names, n, k - 1);
        lemma_tally_step(rs, n, names[k - 1]);
    }
}

/// Among the first `n` records there are no more distinct identifiers than the
/// tallies of the named platforms add up to.
proof fn lemma_identifiers_covered(rs: Seq<TechniqueView>, names: Seq<Seq<char>>, n: int)
    requires
        0 <= n <= rs.len(),
        forall|i: int| 0 <= i < rs.len() ==> on_some(#[trigger] rs[i], names),
    ensures
        identifiers(rs.take(n)).finite(),
        identifiers(rs.take(n)).len() <= sum_tally(rs.take(n), true, names, names.len() as int),
    decreases n,
{
    if n == 0 {
        assert(identifiers(rs.take(0)) =~= Set::empty());
    } else {
        lemma_identifiers_covered(rs, names, n - 1);
        lemma_identifiers_step(rs, n - 1);
        let r = rs[n - 1];
        if identifiers(rs.take(n - 1)).contains(r.tid) {
            lemma_sum_tally_grows(rs, names, n - 1, names.len() as int);
        } else {
            assert(on_some(r, names));
            let at = choose|j: int|
                0 <= j < names.len() && r.platforms.contains(#[trigger] names[j]);
            lemma_sum_tally_step(rs, names, n - 1, names.len() as int, at);
        }
    }
}

/// Where every record is on one of the named platforms, the counts of the named
/// platforms add up to no less than there are distinct identifiers.
pub proof fn lemma_platform_counts_cover(rs: Seq<TechniqueView>, names: Seq<Seq<char>>)
    requires
        forall|i: int| 0 <= i < rs.len() ==> on_some(#[trigger] rs[i], names),
    ensures
        identifiers(rs).finite(),
        sum_counts(category_rows(rs, true, names)) >= identifiers(rs).len(),
{
    lemma_identifiers_covered(rs, names, rs.len() as int);
    assert(rs.take(rs.len() as int) =~= rs);
    lemma_sum_counts(rs, true, names, names.len() as int);
    let rows = category_rows(rs, true, names);
    assert(rows.take(names.len() as int) =~= rows);
}

/// A sorted list of the identifiers of the records is as long as there are distinct
/// identifiers among them.
pub proof fn lemma_unique_identifiers(u: Seq<Seq<char>>, rs: Seq<TechniqueView>)
    requires
        sorted::<String>(u),
        same_items(u, tids(rs)),
    ensures
        identifiers(rs).finite(),
        u.len() == identifiers(rs).len(),
{
    lemma_sorted_no_duplicates::<String>(u);
    u.unique_seq_to_set();
    assert forall|id: Seq<char>| u.to_set().contains(id) <==> identifiers(rs).contains(id) by {
        assert(u.to_set().contains(id) <==> u.contains(id));
        if tids(rs).contains(id) {
            let i = choose|i: int| 0 <= i < tids(rs).len() && tids(rs)[i] == id;
            assert(rs[i].tid == id);
        }
        if identifiers(rs).contains(id) {
            let i = choose|i: int| 0 <= i < rs.len() && (#[trigger] rs[i]).tid == id;
            assert(tids(rs)[i] == id);
        }
    }
    assert(u.to_set() =~= identifiers(rs));
}

/// In a snapshot that ingestion left, where every technique record is on one of the
/// nine platforms, the per-platform technique counts add up to no less than the count
/// of distinct techniques.
pub proof fn lemma_platform_counts_cover_techniques(objs: Seq<BundleView>, b: BaselineView)
    requires
        is_baseline_of(b, objs),
        forall|i: int|
            0 <= i < b.breakdown_techniques.len() ==> on_some(
                #[trigger] b.breakdown_techniques[i],
                known_platforms(),
            ),
    ensures
        sum_counts(b.stats.techniques_by_platform) >= b.stats.count_active_uniq_techniques,
{
    let rs = b.breakdown_techniques;
    lemma_platform_counts_cover(rs, known_platforms());
    assert(tids(rs) =~= tids(all_records(objs, false)));
    lemma_unique_identifiers(b.uniques_techniques, rs);
}

/// One where the record at `n` brings a pair of identifier and tactic that no
/// earlier record holds, else none.
pub open spec fn fresh(rs: Seq<TechniqueView>, n: int) -> nat {
    if pairs(rs.take(n), SelectorView::Every).contains(pair_of(rs[n])) {
        0
    } else {
        1
    }
}

/// With one more record the tally of all pairs grows by one exactly where its pair
/// is new, and the tally of a tactic grows with it exactly where that is the
/// record's tactic.
proof fn lemma_tactic_tally_step(rs: Seq<TechniqueView>, n: int, t: Seq<char>)
    requires
        0 <= n < rs.len(),
    ensures
        tally(rs.take(n + 1), SelectorView::Every) == tally(rs.take(n), SelectorView::Every)
            + fresh(rs, n),
        tally(rs.take(n + 1), SelectorView::Tactic(t)) == tally(
            rs.take(n),
            SelectorView::Tactic(t),
        ) + if rs[n].tactic == t {
            fresh(rs, n)
        } else {
            0
        },
{
    let every = SelectorView::Every;
    let under = SelectorView::Tactic(t);
    let less = rs.take(n);
    let pair = pair_of(rs[n]);
    lemma_pairs_step(rs, every, n);
    lemma_pairs_finite(rs, every, n);
    lemma_pairs_step(rs, under, n);
    lemma_pairs_finite(rs, under, n);
    if rs[n].tactic == t {
        if pairs(less, every).contains(pair) {
            let i = choose|i: int|
                0 <= i < less.len() && selects(every, #[trigger] less[i]) && pair_of(less[i])
                    == pair;
            assert(selects(under, less[i]));
            assert(pairs(less, under).contains(pair));
        }
        if pairs(less, under).contains(pair) {
            let i = choose|i: int|
                0 <= i < less.len() && selects(under, #[trigger] less[i]) && pair_of(less[i])
                    == pair;
            assert(selects(every, less[i]));
            assert(pairs(less, every).contains(pair));
        }
    }
}

/// With one more record the tallies of the first `k` tactics grow by one exactly
/// where its pair is new and its tactic is among them.
proof fn lemma_sum_tactic_step(rs: Seq<TechniqueView>, names: Seq<Seq<char>>, n: int, k: int)
    requires
        0 <= n < rs.len(),
        0 <= k <= names.len(),
        names.no_duplicates(),
    ensures
        sum_tally(rs.take(n + 1), false, names, k) == sum_tally(rs.take(n), false, names, k)
            + if names.take(k).contains(rs[n].tactic) {
            fresh(rs, n)
        } else {
            0
        },
    decreases k,
{
    let t = rs[n].tactic;
    if k > 0 {
        lemma_sum_tactic_step(rs, names, n, k - 1);
        lemma_tactic_tally_step(rs, n, names[k - 1]);
        let shorter = names.take(k - 1);
        let longer = names.take(k);
        assert(longer =~= shorter.push(names[k - 1]));
        if shorter.contains(t) {
            let j = choose|j: int| 0 <= j < shorter.len() && shorter[j] == t;
            assert(names[j] == t);
            assert(names[k - 1] != t);
            assert(longer[j] == t);
        }
        if names[k - 1] == t {
            assert(longer[k - 1] == t);
        }
        if longer.contains(t) {
            let j = choose|j: int| 0 <= j < longer.len() && longer[j] == t;
            if j < k - 1 {
                assert(shorter[j] == t);
            }
        }
    } else {
        assert(names.take(0) =~= Seq::<Seq<char>>::empty());
    }
}

/// Among the first `n` records the tallies of the named tactics add up to no more
/// than the tally of all pairs, and to as much where every tactic is a named one.
proof fn lemma_tactic_tallies(rs: Seq<TechniqueView>, names: Seq<Seq<char>>, n: int)
    requires
        0 <= n <= rs.len(),
        names.no_duplicates(),
    ensures
        sum_tally(rs.take(n), false, names, names.len() as int) <= tally(
            rs.take(n),
            SelectorView::Every,
        ),
        (forall|i: int| 0 <= i < n ==> names.contains(#[trigger] rs[i].tactic)) ==> sum_tally(
            rs.take(n),
            false,
            names,
            names.len() as int,
        ) == tally(rs.take(n), SelectorView::Every),
    decreases n,
{
    if n == 0 {
        lemma_sum_of_none(names, names.len() as int);
        crate::stats::lemma_tally_of_none(SelectorView::Every);
        assert(rs.take(0) =~= Seq::empty());
    } else {
        lemma_tactic_tallies(rs, names, n - 1);
        lemma_sum_tactic_step(rs, names, n - 1, names.len() as int);
        lemma_tactic_tally_step(rs, n - 1, rs[n - 1].tactic);
        assert(names.take(names.len() as int) =~= names);
    }
}

/// No records give no tallies.
proof fn lemma_sum_of_none(names: Seq<Seq<char>>, k: int)
    requires
        0 <= k <= names.len(),
    ensures
        sum_tally(Seq::empty(), false, names, k) == 0,
    decreases k,
{
    if k > 0 {
        lemma_sum_of_none(names, k - 1);
        crate::stats::lemma_tally_of_none(SelectorView::Tactic(names[k - 1]));
    }
}

/// The counts of distinct tactics add up to no more than there are distinct pairs of
/// identifier and tactic, and to exactly as many where the tactic of every record is
/// one of those counted.
pub proof fn lemma_tactic_counts_add_up(rs: Seq<TechniqueView>, names: Seq<Seq<char>>)
    requires
        names.no_duplicates(),
    ensures
        sum_counts(category_rows(rs, false, names)) <= tally(rs, SelectorView::Every),
        (forall|i: int| 0 <= i < rs.len() ==> names.contains(#[trigger] rs[i].tactic))
            ==> sum_counts(category_rows(rs, false, names)) == tally(rs, SelectorView::Every),
{
    lemma_tactic_tallies(rs, names, rs.len() as int);
    assert(rs.take(rs.len() as int) =~= rs);
    lemma_sum_counts(rs, false, names, names.len() as int);
    let rows = category_rows(rs, false, names);
    assert(rows.take(names.len() as int) =~= rows);
}

/// The twelve kill-chain categories are twelve different names.
pub proof fn lemma_known_tactics_differ()
    ensures
        known_tactics().no_duplicates(),
{
    reveal_strlit("initial-access");
    reveal_strlit("execution");
    reveal_strlit("persistence");
    reveal_strlit("privilege-escalation");
    reveal_strlit("defense-evasion");
    reveal_strlit("credential-access");
    reveal_strlit("discovery");
    reveal_strlit("lateral-movement");
    reveal_strlit("collection");
    reveal_strlit("command-and-control");
    reveal_strlit("exfiltration");
    reveal_strlit("impact");
    let names = known_tactics();
    assert(names[0].len() == 14);
    assert(names[1].len() == 9 && names[1][0] == 'e');
    assert(names[2].len() == 11);
    assert(names[3].len() == 20);
    assert(names[4].len() == 15);
    assert(names[5].len() == 17);
    assert(names[6].len() == 9 && names[6][0] == 'd');
    assert(names[7].len() == 16);
    assert(names[8].len() == 10);
    assert(names[9].len() == 19);
    assert(names[10].len() == 12);
    assert(names[11].len() == 6);
}

/// In a snapshot that ingestion left, the twelve per-tactic counts of techniques add
/// up to no more than the count of distinct pairs of technique and tactic, and to
/// exactly that count where every technique record stands under one of the twelve
/// tactics. The same holds of the subtechniques.
pub proof fn lemma_tactic_counts_add_up_in_snapshot(objs: Seq<BundleView>, b: BaselineView)
    requires
        is_baseline_of(b, objs),
    ensures
        sum_counts(b.stats.techniques_by_tactic) <= b.stats.count_active_total_techniques,
        (forall|i: int|
            0 <= i < b.breakdown_techniques.len() ==> known_tactics().contains(
                #[trigger] b.breakdown_techniques[i].tactic,
            )) ==> sum_counts(b.stats.techniques_by_tactic)
            == b.stats.count_active_total_techniques,
        sum_counts(b.stats.subtechniques_by_tactic) <= b.stats.count_active_total_subtechniques,
        (forall|i: int|
            0 <= i < b.breakdown_subtechniques.len() ==> known_tactics().contains(
                #[trigger] b.breakdown_subtechniques[i].tactic,
            )) ==> sum_counts(b.stats.subtechniques_by_tactic)
            == b.stats.count_active_total_subtechniques,
{
    lemma_known_tactics_differ();
    lemma_tactic_counts_add_up(b.breakdown_techniques, known_tactics());
    lemma_tactic_counts_add_up(b.breakdown_subtechniques, known_tactics());
}

/// Asking for subtechniques never hides a technique: an active technique with the
/// identifier is asked for, with or without its subtechniques.
pub proof fn lemma_by_id_keeps_techniques(
    b: BaselineView,
    lower: Seq<char>,
    subs: bool,
    x: TechniqueView,
)
    requires
        b.breakdown_techniques.contains(x),
        lowercase_of(x.tid) == lower,
    ensures
        hits_id(b, lower, subs, x),
        forall|y: TechniqueView| hits_id(b, lower, subs, y) ==> active_hit(b, lower, subs, y),
{
    assert(active_hit(b, lower, subs, x));
}

} // verus!
