use vstd::prelude::*;
use crate::bundle::{
    holds_subtechnique_id, is_active, is_revoked, missing_field, names_subtechnique,
    BundleObject, BundleView, MissingField,
};
use crate::enterprise::{EnterpriseTechnique, TechniqueView};
use crate::gather::{gather, insert_all, lemma_contains_add, lemma_gather_push, same_items};
use crate::keyed::{append_all, copy_all, insert_keyed, sorted, Keyed};
use crate::lex::views;
use crate::normalizer::{normalize_all, normalized_all};
use crate::laws::lemma_ingestion_is_well_formed;
use crate::parser::{
    empty_baseline, stats_of, tids, well_formed, BaselineView, EnterpriseMatrixParser,
    MatrixError, ParserView,
};
use crate::scan::starts_with;
use crate::stats::{no_statistics, StatisticsView};
use crate::text::same_text;

verus! {

/// The items of an optional list; none where there is no list.
pub open spec fn or_empty<A>(v: Option<Seq<A>>) -> Seq<A> {
    match v {
        Some(s) => s,
        None => Seq::empty(),
    }
}

/// `post` is sorted and holds what `pre` held and the `items`, each value once.
pub open spec fn absorbed<T: Keyed>(pre: Seq<T::V>, items: Seq<T::V>, post: Seq<T::V>) -> bool {
    &&& sorted::<T>(post)
    &&& forall|x: T::V|
        #![trigger post.contains(x)]
        #![trigger pre.contains(x)]
        #![trigger items.contains(x)]
        post.contains(x) <==> (pre.contains(x) || items.contains(x))
}

/// The record that an object gives under one of its kill-chain phases.
pub open spec fn record_for(o: BundleView, phase: Seq<char>) -> TechniqueView {
    TechniqueView {
        platforms: normalized_all(or_empty(o.platforms)),
        tid: o.external_id->0,
        tactic: phase,
        technique: o.name->0,
        datasources: normalized_all(or_empty(o.data_sources)),
        has_subtechniques: false,
        subtechniques: Seq::empty(),
        is_revoked: false,
        is_deprecated: false,
    }
}

/// The records that an object gives: one for each of its kill-chain phases, in order.
pub open spec fn records_for(o: BundleView) -> Seq<TechniqueView> {
    Seq::new(
        or_empty(o.kill_chain_phases).len(),
        |k: int| record_for(o, or_empty(o.kill_chain_phases)[k]),
    )
}

/// The records that an object adds to a list: all it gives where it carries data
/// sources and the list is the `wanted` one, else none.
pub open spec fn kept(o: BundleView, wanted: bool) -> Seq<TechniqueView> {
    if wanted && o.data_sources is Some {
        records_for(o)
    } else {
        Seq::empty()
    }
}

/// Builds the records that an object gives, one for each of its kill-chain phases.
pub fn records_from(item: &BundleObject) -> (r: Vec<EnterpriseTechnique>)
    requires
        item@.external_id is Some,
        item@.name is Some,
    ensures
        views(r@) == records_for(item@),
{
    let ghost want = records_for(item@);
    let mut r: Vec<EnterpriseTechnique> = Vec::new();
    let platforms = match &item.platforms {
        Some(names) => normalize_all(names),
        None => Vec::new(),
    };
    let datasources = match &item.data_sources {
        Some(names) => normalize_all(names),
        None => Vec::new(),
    };
    proof {
        assert(normalized_all(Seq::<Seq<char>>::empty()) =~= Seq::empty());
        assert(views(Seq::<String>::empty()) =~= Seq::empty());
    }
    assert(views(platforms@) == normalized_all(or_empty(item@.platforms)));
    assert(views(datasources@) == normalized_all(or_empty(item@.data_sources)));
    match (&item.external_id, &item.name, &item.kill_chain_phases) {
        (Some(tid), Some(name), Some(phases)) => {
            let mut k: usize = 0;
            while k < phases.len()
                invariant
                    k <= phases.len(),
                    want == records_for(item@),
                    item@.external_id == Some(tid@),
                    item@.name == Some(name@),
                    item@.kill_chain_phases == Some(views(phases@)),
                    views(platforms@) == normalized_all(or_empty(item@.platforms)),
                    views(datasources@) == normalized_all(or_empty(item@.data_sources)),
                    views(r@) == want.take(k as int),
                decreases phases.len() - k,
            {
                let ghost before = views(r@);
                let record = EnterpriseTechnique {
                    platforms: copy_all(&platforms),
                    tid: tid.clone(),
                    tactic: phases[k].clone(),
                    technique: name.clone(),
                    datasources: copy_all(&datasources),
                    has_subtechniques: false,
                    subtechniques: Vec::new(),
                    is_revoked: false,
                    is_deprecated: false,
                };
                proof {
                    assert(views(record.subtechniques@) =~= Seq::empty());
                    assert(views(phases@)[k as int] == phases[k as int]@);
                    assert(record@ == want[k as int]);
                }
                r.push(record);
                assert(views(r@) =~= before.push(want[k as int]));
                k = k + 1;
                assert(views(r@) =~= want.take(k as int));
            }
            assert(want.take(k as int) =~= want);
        },
        _ => {
            assert(want =~= Seq::empty());
            assert(views(r@) =~= Seq::empty());
        },
    }
    r
}

/// The identifiers of the records, in order.
pub fn tids_of(records: &Vec<EnterpriseTechnique>) -> (r: Vec<String>)
    ensures
        views(r@) == tids(views(records@)),
{
    let ghost want = tids(views(records@));
    let mut r: Vec<String> = Vec::new();
    let mut i: usize = 0;
    while i < records.len()
        invariant
            i <= records.len(),
            want == tids(views(records@)),
            views(r@) == want.take(i as int),
        decreases records.len() - i,
    {
        let ghost before = views(r@);
        r.push(records[i].tid.clone());
        assert(views(r@) =~= before.push(want[i as int]));
        i = i + 1;
        assert(views(r@) =~= want.take(i as int));
    }
    assert(want.take(i as int) =~= want);
    r
}

impl EnterpriseMatrixParser {
    /// Puts the normalized platform names of `item` into the platform set and, where
    /// `item` carries data sources, appends its records to the technique list, or to
    /// the subtechnique list where `is_subtechnique` is set, and notes their identifier.
    pub fn extract_techniques_and_tactics(&mut self, item: &BundleObject, is_subtechnique: bool)
        requires
            sorted::<String>(old(self)@.details.platforms),
            sorted::<String>(old(self)@.techniques),
            sorted::<String>(old(self)@.subtechniques),
            item@.external_id is Some,
            item@.name is Some,
        ensures
            absorbed::<String>(
                old(self)@.details.platforms,
                normalized_all(or_empty(item@.platforms)),
                final(self)@.details.platforms,
            ),
            final(self)@.details.breakdown_techniques == old(self)@.details.breakdown_techniques
                + kept(item@, !is_subtechnique),
            final(self)@.details.breakdown_subtechniques
                == old(self)@.details.breakdown_subtechniques + kept(item@, is_subtechnique),
            absorbed::<String>(
                old(self)@.techniques,
                tids(kept(item@, !is_subtechnique)),
                final(self)@.techniques,
            ),
            absorbed::<String>(
                old(self)@.subtechniques,
                tids(kept(item@, is_subtechnique)),
                final(self)@.subtechniques,
            ),
            final(self)@ == (ParserView {
                techniques: final(self)@.techniques,
                subtechniques: final(self)@.subtechniques,
                details: BaselineView {
                    platforms: final(self)@.details.platforms,
                    breakdown_techniques: final(self)@.details.breakdown_techniques,
                    breakdown_subtechniques: final(self)@.details.breakdown_subtechniques,
                    ..old(self)@.details
                },
            }),
    {
        let platforms = match &item.platforms {
            Some(names) => normalize_all(names),
            None => Vec::new(),
        };
        proof {
            assert(normalized_all(Seq::<Seq<char>>::empty()) =~= Seq::empty());
            assert(views(Seq::<String>::empty()) =~= Seq::empty());
            assert(tids(Seq::<TechniqueView>::empty()) =~= Seq::empty());
        }
        insert_all(&mut self.details.platforms, &platforms);
        proof {
            let none = Seq::<TechniqueView>::empty();
            assert(old(self)@.details.breakdown_techniques + none
                =~= old(self)@.details.breakdown_techniques);
            assert(old(self)@.details.breakdown_subtechniques + none
                =~= old(self)@.details.breakdown_subtechniques);
        }
        if item.data_sources.is_some() {
            let records = records_from(item);
            let ids = tids_of(&records);
            if is_subtechnique {
                append_all(&mut self.details.breakdown_subtechniques, &records);
                insert_all(&mut self.subtechniques, &ids);
            } else {
                append_all(&mut self.details.breakdown_techniques, &records);
                insert_all(&mut self.techniques, &ids);
            }
        }
    }

    /// Puts the kill-chain phase names of `item` into the tactic set.
    pub fn extract_tactics(&mut self, item: &BundleObject)
        requires
            sorted::<String>(old(self)@.details.tactics),
        ensures
            absorbed::<String>(
                old(self)@.details.tactics,
                or_empty(item@.kill_chain_phases),
                final(self)@.details.tactics,
            ),
            final(self)@ == (ParserView {
                details: BaselineView {
                    tactics: final(self)@.details.tactics,
                    ..old(self)@.details
                },
                ..old(self)@
            }),
    {
        match &item.kill_chain_phases {
            Some(phases) => {
                insert_all(&mut self.details.tactics, phases);
            },
            None => {},
        }
    }

    /// Puts the normalized data source names of `item` into the datasource list.
    pub fn extract_datasources(&mut self, item: &BundleObject)
        requires
            sorted::<String>(old(self)@.details.datasources),
        ensures
            absorbed::<String>(
                old(self)@.details.datasources,
                normalized_all(or_empty(item@.data_sources)),
                final(self)@.details.datasources,
            ),
            final(self)@ == (ParserView {
                details: BaselineView {
                    datasources: final(self)@.details.datasources,
                    ..old(self)@.details
                },
                ..old(self)@
            }),
    {
        match &item.data_sources {
            Some(names) => {
                let canonical = normalize_all(names);
                insert_all(&mut self.details.datasources, &canonical);
            },
            None => {
                assert(normalized_all(Seq::<Seq<char>>::empty()) =~= Seq::empty());
            },
        }
    }

    /// Puts the identifier and name of a revoked technique into the revoked set.
    pub fn extract_revoked_techniques(&mut self, item: &BundleObject)
        requires
            sorted::<(String, String)>(old(self)@.details.revoked_techniques),
            item@.external_id is Some,
            item@.name is Some,
        ensures
            absorbed::<(String, String)>(
                old(self)@.details.revoked_techniques,
                seq![(item@.external_id->0, item@.name->0)],
                final(self)@.details.revoked_techniques,
            ),
            final(self)@ == (ParserView {
                details: BaselineView {
                    revoked_techniques: final(self)@.details.revoked_techniques,
                    ..old(self)@.details
                },
                ..old(self)@
            }),
    {
        let tid = match &item.external_id {
            Some(s) => s.clone(),
            None => String::new(),
        };
        let name = match &item.name {
            Some(s) => s.clone(),
            None => String::new(),
        };
        let ghost pair = (item@.external_id->0, item@.name->0);
        insert_keyed(&mut self.details.revoked_techniques, (tid, name));
        proof {
            let one = seq![pair];
            assert(one[0] == pair);
            assert forall|x: (Seq<char>, Seq<char>)| one.contains(x) <==> x == pair by {}
        }
    }
}

/// The tactic names that an object adds: its kill-chain phases, where it is active.
pub open spec fn phases_of(o: BundleView) -> Seq<Seq<char>> {
    if is_active(o) {
        or_empty(o.kill_chain_phases)
    } else {
        Seq::empty()
    }
}

/// The platform names that an object adds: its platforms, normalized, where it is active.
pub open spec fn platforms_of(o: BundleView) -> Seq<Seq<char>> {
    if is_active(o) {
        normalized_all(or_empty(o.platforms))
    } else {
        Seq::empty()
    }
}

/// The datasource names that an object adds: its data sources, normalized, where it
/// is active.
pub open spec fn datasources_of(o: BundleView) -> Seq<Seq<char>> {
    if is_active(o) {
        normalized_all(or_empty(o.data_sources))
    } else {
        Seq::empty()
    }
}

/// The revoked technique that an object adds: its identifier and name, where it is revoked.
pub open spec fn revoked_of(o: BundleView) -> Seq<(Seq<char>, Seq<char>)> {
    if is_revoked(o) {
        seq![(o.external_id->0, o.name->0)]
    } else {
        Seq::empty()
    }
}

/// The records that an object adds to the technique list (`sub` unset) or to the
/// subtechnique list (`sub` set): those it gives where it is active, carries data
/// sources, and its text holds a subtechnique identifier exactly when `sub` is set.
pub open spec fn records_of(o: BundleView, sub: bool) -> Seq<TechniqueView> {
    if is_active(o) && holds_subtechnique_id(o.serialized) == sub {
        kept(o, true)
    } else {
        Seq::empty()
    }
}

/// One more where the object is of the kind, else none.
pub open spec fn one_if_kind(o: BundleView, kind: Seq<char>) -> nat {
    if o.kind == kind {
        1
    } else {
        0
    }
}

/// What scanning one object does to the working state.
pub open spec fn scan_step(pre: ParserView, o: BundleView, post: ParserView) -> bool {
    &&& absorbed::<String>(pre.details.tactics, phases_of(o), post.details.tactics)
    &&& absorbed::<String>(pre.details.platforms, platforms_of(o), post.details.platforms)
    &&& absorbed::<String>(pre.details.datasources, datasources_of(o), post.details.datasources)
    &&& absorbed::<(String, String)>(
        pre.details.revoked_techniques,
        revoked_of(o),
        post.details.revoked_techniques,
    )
    &&& post.details.breakdown_techniques == pre.details.breakdown_techniques + records_of(
        o,
        false,
    )
    &&& post.details.breakdown_subtechniques == pre.details.breakdown_subtechniques + records_of(
        o,
        true,
    )
    &&& absorbed::<String>(pre.techniques, tids(records_of(o, false)), post.techniques)
    &&& absorbed::<String>(pre.subtechniques, tids(records_of(o, true)), post.subtechniques)
    &&& post.details.stats.count_malwares == pre.details.stats.count_malwares + one_if_kind(
        o,
        "malware"@,
    )
    &&& post.details.stats.count_adversaries == pre.details.stats.count_adversaries + one_if_kind(
        o,
        "intrusion-set"@,
    )
    &&& post.details.stats.count_tools == pre.details.stats.count_tools + one_if_kind(o, "tool"@)
    &&& post == (ParserView {
        techniques: post.techniques,
        subtechniques: post.subtechniques,
        details: BaselineView {
            tactics: post.details.tactics,
            platforms: post.details.platforms,
            datasources: post.details.datasources,
            revoked_techniques: post.details.revoked_techniques,
            breakdown_techniques: post.details.breakdown_techniques,
            breakdown_subtechniques: post.details.breakdown_subtechniques,
            stats: StatisticsView {
                count_malwares: post.details.stats.count_malwares,
                count_adversaries: post.details.stats.count_adversaries,
                count_tools: post.details.stats.count_tools,
                ..pre.details.stats
            },
            ..pre.details
        },
    })
}

/// The sets that scanning fills are sorted.
pub open spec fn sets_sorted(p: ParserView) -> bool {
    &&& sorted::<String>(p.details.tactics)
    &&& sorted::<String>(p.details.platforms)
    &&& sorted::<String>(p.details.datasources)
    &&& sorted::<(String, String)>(p.details.revoked_techniques)
    &&& sorted::<String>(p.techniques)
    &&& sorted::<String>(p.subtechniques)
}

impl EnterpriseMatrixParser {
    /// Takes one bundle object in: a revoked attack pattern into the revoked set; an
    /// active one into the tactic, platform and datasource sets and the record lists;
    /// malware, intrusion sets and tools into their counters; anything else nowhere.
    pub fn scan_object(&mut self, item: &BundleObject)
        requires
            sets_sorted(old(self)@),
            missing_field(item@) is None,
            old(self).details.stats.count_malwares < usize::MAX,
            old(self).details.stats.count_adversaries < usize::MAX,
            old(self).details.stats.count_tools < usize::MAX,
        ensures
            scan_step(old(self)@, item@, final(self)@),
    {
        proof {
            assert(tids(Seq::<TechniqueView>::empty()) =~= Seq::empty());
            assert(old(self)@.details.breakdown_techniques + Seq::<TechniqueView>::empty()
                =~= old(self)@.details.breakdown_techniques);
            assert(old(self)@.details.breakdown_subtechniques + Seq::<TechniqueView>::empty()
                =~= old(self)@.details.breakdown_subtechniques);
            reveal_strlit("attack-pattern");
            reveal_strlit("malware");
            reveal_strlit("intrusion-set");
            reveal_strlit("tool");
            assert("attack-pattern"@.len() == 14);
            assert("malware"@.len() == 7);
            assert("intrusion-set"@.len() == 13);
            assert("tool"@.len() == 4);
        }
        if item.is_attack_pattern() {
            assert(item@.kind != "malware"@);
            assert(item@.kind != "intrusion-set"@);
            assert(item@.kind != "tool"@);
            if item.mentions_revoked() {
                self.extract_revoked_techniques(item);
            } else {
                let sub = names_subtechnique(item.serialized.as_str());
                self.extract_techniques_and_tactics(item, sub);
                self.extract_tactics(item);
                self.extract_datasources(item);
            }
        } else if same_text(item.kind.as_str(), "malware") {
            assert(item@.kind != "intrusion-set"@);
            assert(item@.kind != "tool"@);
            self.details.stats.count_malwares = self.details.stats.count_malwares + 1;
        } else if same_text(item.kind.as_str(), "intrusion-set") {
            assert(item@.kind != "tool"@);
            self.details.stats.count_adversaries = self.details.stats.count_adversaries + 1;
        } else if same_text(item.kind.as_str(), "tool") {
            self.details.stats.count_tools = self.details.stats.count_tools + 1;
        }
    }
}

/// The tactic names that the objects add, object after object.
pub open spec fn all_phases(objs: Seq<BundleView>) -> Seq<Seq<char>> {
    gather(objs.map_values(|o: BundleView| phases_of(o)))
}

/// The platform names that the objects add, object after object.
pub open spec fn all_platforms(objs: Seq<BundleView>) -> Seq<Seq<char>> {
    gather(objs.map_values(|o: BundleView| platforms_of(o)))
}

/// The datasource names that the objects add, object after object.
pub open spec fn all_datasources(objs: Seq<BundleView>) -> Seq<Seq<char>> {
    gather(objs.map_values(|o: BundleView| datasources_of(o)))
}

/// The revoked techniques that the objects add, object after object.
pub open spec fn all_revoked(objs: Seq<BundleView>) -> Seq<(Seq<char>, Seq<char>)> {
    gather(objs.map_values(|o: BundleView| revoked_of(o)))
}

/// The records that the objects add to the technique list, or to the subtechnique
/// list where `sub` is set, object after object.
pub open spec fn all_records(objs: Seq<BundleView>, sub: bool) -> Seq<TechniqueView> {
    gather(objs.map_values(|o: BundleView| records_of(o, sub)))
}

/// How many of the objects are of the kind.
pub open spec fn count_kind(objs: Seq<BundleView>, kind: Seq<char>) -> nat
    decreases objs.len(),
{
    if objs.len() == 0 {
        0
    } else {
        count_kind(objs.drop_last(), kind) + one_if_kind(objs.last(), kind)
    }
}

/// The working state after the objects were scanned, from an empty state on.
pub open spec fn scanned(p: ParserView, objs: Seq<BundleView>) -> bool {
    &&& sets_sorted(p)
    &&& same_items(p.details.tactics, all_phases(objs))
    &&& same_items(p.details.platforms, all_platforms(objs))
    &&& same_items(p.details.datasources, all_datasources(objs))
    &&& same_items(p.details.revoked_techniques, all_revoked(objs))
    &&& p.details.breakdown_techniques == all_records(objs, false)
    &&& p.details.breakdown_subtechniques == all_records(objs, true)
    &&& same_items(p.techniques, tids(all_records(objs, false)))
    &&& same_items(p.subtechniques, tids(all_records(objs, true)))
    &&& p.details.stats.count_malwares == count_kind(objs, "malware"@)
    &&& p.details.stats.count_adversaries == count_kind(objs, "intrusion-set"@)
    &&& p.details.stats.count_tools == count_kind(objs, "tool"@)
    &&& p.details == (BaselineView {
        tactics: p.details.tactics,
        platforms: p.details.platforms,
        datasources: p.details.datasources,
        revoked_techniques: p.details.revoked_techniques,
        breakdown_techniques: p.details.breakdown_techniques,
        breakdown_subtechniques: p.details.breakdown_subtechniques,
        stats: StatisticsView {
            count_malwares: p.details.stats.count_malwares,
            count_adversaries: p.details.stats.count_adversaries,
            count_tools: p.details.stats.count_tools,
            ..no_statistics()
        },
        ..empty_baseline()
    })
}

/// What was absorbed into a set of the gathered lists holds, with one more list,
/// what all the lists gather.
proof fn lemma_absorb_gather<T: Keyed>(
    pre: Seq<T::V>,
    post: Seq<T::V>,
    lists: Seq<Seq<T::V>>,
    last: Seq<T::V>,
)
    requires
        same_items(pre, gather(lists)),
        absorbed::<T>(pre, last, post),
    ensures
        same_items(post, gather(lists.push(last))),
{
    lemma_gather_push(lists, last);
    lemma_contains_add(gather(lists), last);
}

/// Scanning one more object after `done` gives the state of all of them scanned.
pub proof fn lemma_scan_step(
    pre: ParserView,
    done: Seq<BundleView>,
    o: BundleView,
    post: ParserView,
)
    requires
        scanned(pre, done),
        scan_step(pre, o, post),
    ensures
        scanned(post, done.push(o)),
{
    let more = done.push(o);
    assert(more.drop_last() =~= done);
    assert(more.last() == o);
    let f1 = |o: BundleView| phases_of(o);
    assert(more.map_values(f1) =~= done.map_values(f1).push(phases_of(o)));
    lemma_absorb_gather::<String>(
        pre.details.tactics,
        post.details.tactics,
        done.map_values(f1),
        phases_of(o),
    );
    let f2 = |o: BundleView| platforms_of(o);
    assert(more.map_values(f2) =~= done.map_values(f2).push(platforms_of(o)));
    lemma_absorb_gather::<String>(
        pre.details.platforms,
        post.details.platforms,
        done.map_values(f2),
        platforms_of(o),
    );
    let f3 = |o: BundleView| datasources_of(o);
    assert(more.map_values(f3) =~= done.map_values(f3).push(datasources_of(o)));
    lemma_absorb_gather::<String>(
        pre.details.datasources,
        post.details.datasources,
        done.map_values(f3),
        datasources_of(o),
    );
    let f4 = |o: BundleView| revoked_of(o);
    assert(more.map_values(f4) =~= done.map_values(f4).push(revoked_of(o)));
    lemma_absorb_gather::<(String, String)>(
        pre.details.revoked_techniques,
        post.details.revoked_techniques,
        done.map_values(f4),
        revoked_of(o),
    );
    let f5 = |o: BundleView| records_of(o, false);
    assert(more.map_values(f5) =~= done.map_values(f5).push(records_of(o, false)));
    lemma_gather_push(done.map_values(f5), records_of(o, false));
    let f6 = |o: BundleView| records_of(o, true);
    assert(more.map_values(f6) =~= done.map_values(f6).push(records_of(o, true)));
    lemma_gather_push(done.map_values(f6), records_of(o, true));
    assert(tids(all_records(more, false)) =~= tids(all_records(done, false)) + tids(
        records_of(o, false),
    ));
    assert(tids(all_records(more, true)) =~= tids(all_records(done, true)) + tids(
        records_of(o, true),
    ));
    lemma_contains_add(tids(all_records(done, false)), tids(records_of(o, false)));
    lemma_contains_add(tids(all_records(done, true)), tids(records_of(o, true)));
}

/// The identifier is the opening of the text.
pub open spec fn child_of(tid: Seq<char>) -> spec_fn(Seq<char>) -> bool {
    |s: Seq<char>| tid.is_prefix_of(s)
}

/// The record with, for its subtechniques, those of `subs` that its identifier opens.
pub open spec fn with_children(r: TechniqueView, subs: Seq<Seq<char>>) -> TechniqueView {
    TechniqueView {
        subtechniques: subs.filter(child_of(r.tid)),
        has_subtechniques: subs.filter(child_of(r.tid)).len() > 0,
        ..r
    }
}

/// Every record with its subtechniques attached.
pub open spec fn correlated(rs: Seq<TechniqueView>, subs: Seq<Seq<char>>) -> Seq<TechniqueView> {
    rs.map_values(|r: TechniqueView| with_children(r, subs))
}

/// The identifiers among `subs` that `tid` opens, in order.
pub fn children_of(tid: &str, subs: &Vec<String>) -> (kids: Vec<String>)
    ensures
        views(kids@) == views(subs@).filter(child_of(tid@)),
{
    let ghost all = views(subs@);
    let mut kids: Vec<String> = Vec::new();
    let mut i: usize = 0;
    proof {
        reveal(Seq::filter);
        assert(all.take(0) =~= Seq::empty());
        assert(views(kids@) =~= all.take(0).filter(child_of(tid@)));
    }
    while i < subs.len()
        invariant
            i <= subs.len(),
            all == views(subs@),
            views(kids@) == all.take(i as int).filter(child_of(tid@)),
        decreases subs.len() - i,
    {
        let ghost before = views(kids@);
        proof {
            reveal(Seq::filter);
            assert(all.take(i + 1).drop_last() =~= all.take(i as int));
            assert(all.take(i + 1).last() == subs[i as int]@);
        }
        if starts_with(subs[i].as_str(), tid) {
            kids.push(subs[i].clone());
            assert(views(kids@) =~= before.push(subs[i as int]@));
        }
        i = i + 1;
    }
    assert(all.take(i as int) =~= all);
    kids
}

/// Attaches to every record its subtechniques among `subs`.
pub fn correlate_records(records: &Vec<EnterpriseTechnique>, subs: &Vec<String>) -> (r: Vec<
    EnterpriseTechnique,
>)
    ensures
        views(r@) == correlated(views(records@), views(subs@)),
{
    let ghost want = correlated(views(records@), views(subs@));
    let mut r: Vec<EnterpriseTechnique> = Vec::new();
    let mut i: usize = 0;
    while i < records.len()
        invariant
            i <= records.len(),
            want == correlated(views(records@), views(subs@)),
            views(r@) == want.take(i as int),
        decreases records.len() - i,
    {
        let ghost before = views(r@);
        let kids = children_of(records[i].tid.as_str(), subs);
        let record = EnterpriseTechnique {
            platforms: copy_all(&records[i].platforms),
            tid: records[i].tid.clone(),
            tactic: records[i].tactic.clone(),
            technique: records[i].technique.clone(),
            datasources: copy_all(&records[i].datasources),
            has_subtechniques: kids.len() > 0,
            subtechniques: kids,
            is_revoked: records[i].is_revoked,
            is_deprecated: records[i].is_deprecated,
        };
        assert(record@ == want[i as int]);
        r.push(record);
        assert(views(r@) =~= before.push(want[i as int]));
        i = i + 1;
        assert(views(r@) =~= want.take(i as int));
    }
    assert(want.take(i as int) =~= want);
    r
}

/// The snapshot that ingestion of the objects leaves.
pub open spec fn is_baseline_of(b: BaselineView, objs: Seq<BundleView>) -> bool {
    &&& sorted::<String>(b.tactics)
    &&& same_items(b.tactics, all_phases(objs))
    &&& sorted::<String>(b.platforms)
    &&& same_items(b.platforms, all_platforms(objs))
    &&& sorted::<String>(b.datasources)
    &&& same_items(b.datasources, all_datasources(objs))
    &&& sorted::<(String, String)>(b.revoked_techniques)
    &&& same_items(b.revoked_techniques, all_revoked(objs))
    &&& sorted::<String>(b.uniques_techniques)
    &&& same_items(b.uniques_techniques, tids(all_records(objs, false)))
    &&& sorted::<String>(b.uniques_subtechniques)
    &&& same_items(b.uniques_subtechniques, tids(all_records(objs, true)))
    &&& b.breakdown_subtechniques == all_records(objs, true)
    &&& b.breakdown_techniques == correlated(all_records(objs, false), b.uniques_subtechniques)
    &&& b.stats == stats_of(b)
    &&& b.stats.count_malwares == count_kind(objs, "malware"@)
    &&& b.stats.count_adversaries == count_kind(objs, "intrusion-set"@)
    &&& b.stats.count_tools == count_kind(objs, "tool"@)
    &&& b.deprecated_techniques == Seq::<(Seq<char>, Seq<char>)>::empty()
    &&& b.adversaries == empty_baseline().adversaries
    &&& b.malware == empty_baseline().malware
    &&& b.tools == empty_baseline().tools
    &&& b.breakdown_adversaries == empty_baseline().breakdown_adversaries
    &&& b.breakdown_malware == empty_baseline().breakdown_malware
    &&& b.breakdown_tools == empty_baseline().breakdown_tools
}

/// No object of the bundle lacks a required field.
pub open spec fn complete(objs: Seq<BundleView>) -> bool {
    forall|i: int| 0 <= i < objs.len() ==> missing_field(#[trigger] objs[i]) is None
}

/// The object at `at` is the first that lacks a required field, and `field` is what it lacks.
pub open spec fn first_lack(objs: Seq<BundleView>, at: int, field: MissingField) -> bool {
    &&& 0 <= at < objs.len()
    &&& missing_field(objs[at]) == Some(field)
    &&& forall|j: int| 0 <= j < at ==> missing_field(#[trigger] objs[j]) is None
}

/// What an ingestion of the objects owes: the snapshot, well formed, where the bundle
/// is complete, else the first lack of a required field and an unchanged state.
pub open spec fn ingested(
    pre: ParserView,
    objs: Seq<BundleView>,
    post: ParserView,
    r: Result<(), MatrixError>,
) -> bool {
    match r {
        Ok(_) => {
            &&& complete(objs)
            &&& is_baseline_of(post.details, objs)
            &&& well_formed(post.details)
            &&& post.techniques == post.details.uniques_techniques
            &&& post.subtechniques == post.details.uniques_subtechniques
        },
        Err(MatrixError::MalformedInput { object, field }) => {
            &&& first_lack(objs, object as int, field)
            &&& post == pre
        },
        Err(_) => false,
    }
}

/// No more objects are of a kind than there are objects.
pub proof fn lemma_count_kind(objs: Seq<BundleView>, kind: Seq<char>)
    ensures
        count_kind(objs, kind) <= objs.len(),
    decreases objs.len(),
{
    if objs.len() > 0 {
        lemma_count_kind(objs.drop_last(), kind);
    }
}

/// Finds the first object that lacks a required field.
pub fn check_bundle(objects: &Vec<BundleObject>) -> (r: Option<(usize, MissingField)>)
    ensures
        match r {
            Some((at, field)) => first_lack(views(objects@), at as int, field),
            None => complete(views(objects@)),
        },
{
    let ghost objs = views(objects@);
    let mut i: usize = 0;
    while i < objects.len()
        invariant
            i <= objects.len(),
            objs == views(objects@),
            forall|j: int| 0 <= j < i ==> missing_field(#[trigger] objs[j]) is None,
        decreases objects.len() - i,
    {
        match objects[i].missing_field() {
            Some(field) => {
                return Some((i, field));
            },
            None => {},
        }
        i = i + 1;
    }
    None
}

impl EnterpriseMatrixParser {
    /// Ingests a bundle: scans its objects once, in order, then attaches to every
    /// technique its subtechniques and counts everything. Leaves the state as it
    /// was where an object lacks a required field.
    pub fn baseline_enterprise(&mut self, objects: &Vec<BundleObject>) -> (r: Result<
        (),
        MatrixError,
    >)
        ensures
            ingested(old(self)@, views(objects@), final(self)@, r),
    {
        let ghost objs = views(objects@);
        match check_bundle(objects) {
            Some((at, field)) => {
                return Err(MatrixError::MalformedInput { object: at, field: field });
            },
            None => {},
        }
        let mut fresh = EnterpriseMatrixParser::new();
        let mut i: usize = 0;
        proof {
            assert(objs.take(0) =~= Seq::empty());
            let none = Seq::<BundleView>::empty();
            assert(none.map_values(|o: BundleView| phases_of(o)) =~= Seq::empty());
            assert(none.map_values(|o: BundleView| platforms_of(o)) =~= Seq::empty());
            assert(none.map_values(|o: BundleView| datasources_of(o)) =~= Seq::empty());
            assert(none.map_values(|o: BundleView| revoked_of(o)) =~= Seq::empty());
            assert(none.map_values(|o: BundleView| records_of(o, false)) =~= Seq::empty());
            assert(none.map_values(|o: BundleView| records_of(o, true)) =~= Seq::empty());
            assert(tids(Seq::<TechniqueView>::empty()) =~= Seq::empty());
            assert(fresh@.details.breakdown_techniques =~= all_records(none, false));
            assert(fresh@.details.breakdown_subtechniques =~= all_records(none, true));
            assert(scanned(fresh@, none));
        }
        while i < objects.len()
            invariant
                i <= objects.len(),
                objs == views(objects@),
                complete(objs),
                scanned(fresh@, objs.take(i as int)),
            decreases objects.len() - i,
        {
            proof {
                lemma_count_kind(objs.take(i as int), "malware"@);
                lemma_count_kind(objs.take(i as int), "intrusion-set"@);
                lemma_count_kind(objs.take(i as int), "tool"@);
                assert(missing_field(objs[i as int]) is None);
            }
            let ghost pre = fresh@;
            fresh.scan_object(&objects[i]);
            proof {
                lemma_scan_step(pre, objs.take(i as int), objs[i as int], fresh@);
                assert(objs.take(i + 1) =~= objs.take(i as int).push(objs[i as int]));
            }
            i = i + 1;
        }
        assert(objs.take(i as int) =~= objs);
        fresh.details.uniques_techniques = copy_all(&fresh.techniques);
        fresh.details.uniques_subtechniques = copy_all(&fresh.subtechniques);
        fresh.details.breakdown_techniques = correlate_records(
            &fresh.details.breakdown_techniques,
            &fresh.details.uniques_subtechniques,
        );
        fresh.details.stats = fresh.details.aggregate();
        proof {
            lemma_ingestion_is_well_formed(objs, fresh@.details);
        }
        *self = fresh;
        Ok(())
    }

    /// Ingests the bundle where the matrix is the `enterprise` one; does nothing for
    /// any other matrix.
    pub fn baseline(&mut self, matrix_type: &str, objects: &Vec<BundleObject>) -> (r: Result<
        (),
        MatrixError,
    >)
        ensures
            matrix_type@ == "enterprise"@ ==> ingested(
                old(self)@,
                views(objects@),
                final(self)@,
                r,
            ),
            matrix_type@ != "enterprise"@ ==> r is Ok && final(self)@ == old(self)@,
    {
        if same_text(matrix_type, "enterprise") {
            self.baseline_enterprise(objects)
        } else {
            Ok(())
        }
    }
}

} // verus!
