use vstd::prelude::*;
use crate::classifier::{
    any_mentions, classify_parts, clean, cleaned, mentions, registries_of, Category, ClassifiedView,
    TermClassifier,
};
use crate::enterprise::{
    AdversaryView, EnterpriseAdversary, EnterpriseWeapon, EnterpriseTechnique, WeaponView,
    TechniqueView,
};
use crate::keyed::{insert_keyed, sorted};
use crate::lex::views;
use crate::normalizer::{lowercase, lowercase_of};
use crate::parser::{BaselineView, EnterpriseMatrixBreakdown, MatrixError};
use crate::picks::{
    from_datasource, on_platform, overlaps, AdversaryNamed, Childless, ChildrenOf, Everything,
    FromDatasource, NamedLike, OnPlatform, Overlapped, WeaponNamed, Sourceless, UnderTactic,
    WithId,
};
use crate::scan::{contains, contains_text, has_char, lemma_split_len, split, split_on, starts_with};
use crate::stats::{EnterpriseMatrixStatistics, StatisticsView};
use crate::select::{
    answer, lemma_picked_plain, lemma_picked_reported, picked, reported, select, Pick,
};
use crate::text::same_text;

verus! {

/// Answers queries against one loaded snapshot.
#[derive(Clone, Debug, PartialEq, Eq)]
pub struct EnterpriseMatrixSearcher {
    pub matrix: String,
    pub content: Option<EnterpriseMatrixBreakdown>,
}

/// What a searcher holds, as mathematical values.
pub struct SearcherView {
    pub matrix: Seq<char>,
    pub content: Option<BaselineView>,
}

/// What an optional snapshot holds.
pub open spec fn loaded(content: Option<EnterpriseMatrixBreakdown>) -> Option<BaselineView> {
    match content {
        Some(b) => Some(b@),
        None => None,
    }
}

impl View for EnterpriseMatrixSearcher {
    type V = SearcherView;

    open spec fn view(&self) -> SearcherView {
        SearcherView { matrix: self.matrix@, content: loaded(self.content) }
    }
}

/// Whether a query by tactic asks for the record.
pub open spec fn hits_tactic(
    b: BaselineView,
    term: Seq<char>,
    subs: bool,
    x: TechniqueView,
) -> bool {
    ||| b.breakdown_techniques.contains(x) && contains_text(x.tactic, term)
    ||| subs && b.breakdown_subtechniques.contains(x) && contains_text(x.tactic, term)
}

/// Whether a query by platform asks for the record: a record of which a platform
/// holds the term, reported for the term alone.
pub open spec fn hits_platform(
    b: BaselineView,
    term: Seq<char>,
    subs: bool,
    x: TechniqueView,
) -> bool {
    ||| reported(
        b.breakdown_techniques,
        |v: TechniqueView| mentions(v.platforms, term),
        |v: TechniqueView| on_platform(v, term),
        x,
    )
    ||| subs && reported(
        b.breakdown_subtechniques,
        |v: TechniqueView| mentions(v.platforms, term),
        |v: TechniqueView| on_platform(v, term),
        x,
    )
}

/// The platform that a datasource term asks for: what stands before its first
/// colon, or `n_a` where it has no colon.
pub open spec fn asked_platform(term: Seq<char>) -> Seq<char> {
    if term.contains(':') {
        split_on(term, ':')[0]
    } else {
        "n_a"@
    }
}

/// The datasource that a datasource term asks for: what stands between its first and
/// second colon, or all of it where it has no colon.
pub open spec fn asked_datasource(term: Seq<char>) -> Seq<char> {
    if term.contains(':') {
        split_on(term, ':')[1]
    } else {
        term
    }
}

/// The name opens as the datasources kept by cloud platforms do.
pub open spec fn cloud_source(ds: Seq<char>) -> bool {
    ||| "aws"@.is_prefix_of(ds)
    ||| "azure"@.is_prefix_of(ds)
    ||| "stack-driver-logs"@.is_prefix_of(ds)
}

/// The name opens as the datasources kept by client platforms do.
pub open spec fn client_source(ds: Seq<char>) -> bool {
    ||| "anti-virus"@.is_prefix_of(ds)
    ||| "bios"@.is_prefix_of(ds)
    ||| "browser-extensions"@.is_prefix_of(ds)
    ||| "disk-forensics"@.is_prefix_of(ds)
    ||| "mbr"@.is_prefix_of(ds)
    ||| "named-pipes"@.is_prefix_of(ds)
    ||| "vbr"@.is_prefix_of(ds)
    ||| "wmi"@.is_prefix_of(ds)
    ||| "win"@.is_prefix_of(ds)
}

/// The datasource does not go with the platform asked for: a cloud source on a
/// platform that is no cloud, a client source on a platform that is no client, or an
/// Office 365 source elsewhere. No platform (`n_a`) goes with every datasource.
pub open spec fn mismatched(os: Seq<char>, ds: Seq<char>) -> bool {
    ||| cloud_source(ds) && os != "aws"@ && os != "azure"@ && os != "gcp"@ && os != "saas"@ && os
        != "n_a"@
    ||| client_source(ds) && os != "windows"@ && os != "macos"@ && os != "linux"@ && os != "n_a"@
    ||| "office-365"@.is_prefix_of(ds) && os != "office-365"@ && os != "n_a"@
}

/// Whether a query by datasource asks for the record: none where datasource and
/// platform do not go together; else a subtechnique record (where `subs` is set) or a
/// technique record of which a datasource holds the one asked for, reported for that
/// datasource alone on the platform asked for.
pub open spec fn hits_datasource(
    b: BaselineView,
    term: Seq<char>,
    subs: bool,
    x: TechniqueView,
) -> bool {
    &&& !mismatched(asked_platform(term), asked_datasource(term))
    &&& reported(
        if subs {
            b.breakdown_subtechniques
        } else {
            b.breakdown_techniques
        },
        |v: TechniqueView| mentions(v.datasources, asked_datasource(term)),
        |v: TechniqueView| from_datasource(v, asked_platform(term), asked_datasource(term)),
        x,
    )
}

/// Whether a query by subtechnique identifier asks for the record.
pub open spec fn hits_subtechnique_id(b: BaselineView, term: Seq<char>, x: TechniqueView) -> bool {
    b.breakdown_subtechniques.contains(x) && lowercase_of(x.tid) == lowercase_of(term)
}

/// Whether a query by name asks for the record: a technique or subtechnique whose
/// name holds the term, whatever the case of the letters.
pub open spec fn hits_name(b: BaselineView, term: Seq<char>, x: TechniqueView) -> bool {
    &&& b.breakdown_techniques.contains(x) || b.breakdown_subtechniques.contains(x)
    &&& contains_text(lowercase_of(x.technique), lowercase_of(term))
}

/// A subtechnique record is asked for with a technique: its identifier holds that of a
/// technique that has the identifier asked for.
pub open spec fn child_hit(
    parents: Seq<TechniqueView>,
    children: Seq<TechniqueView>,
    lower: Seq<char>,
    x: TechniqueView,
) -> bool {
    exists|i: int|
        0 <= i < parents.len() && lowercase_of((#[trigger] parents[i]).tid) == lower
            && children.contains(x) && contains_text(x.tid, parents[i].tid)
}

/// An active record is asked for by identifier: a technique with the identifier or,
/// where subtechniques are asked for too, a subtechnique of such a technique.
pub open spec fn active_hit(
    b: BaselineView,
    lower: Seq<char>,
    subs: bool,
    x: TechniqueView,
) -> bool {
    ||| b.breakdown_techniques.contains(x) && lowercase_of(x.tid) == lower
    ||| subs && child_hit(b.breakdown_techniques, b.breakdown_subtechniques, lower, x)
}

/// The record that stands for a revoked or deprecated technique: its identifier, its
/// name and its status, and nothing else.
pub open spec fn retired(pair: (Seq<char>, Seq<char>), revoked: bool) -> TechniqueView {
    TechniqueView {
        platforms: Seq::empty(),
        tid: pair.0,
        tactic: Seq::empty(),
        technique: pair.1,
        datasources: Seq::empty(),
        has_subtechniques: false,
        subtechniques: Seq::empty(),
        is_revoked: revoked,
        is_deprecated: !revoked,
    }
}

/// `x` stands for one of the pairs with the identifier asked for.
pub open spec fn retired_hit(
    pairs: Seq<(Seq<char>, Seq<char>)>,
    lower: Seq<char>,
    revoked: bool,
    x: TechniqueView,
) -> bool {
    exists|i: int|
        0 <= i < pairs.len() && lowercase_of((#[trigger] pairs[i]).0) == lower && x == retired(
            pairs[i],
            revoked,
        )
}

/// Whether a query by identifier asks for the record: the active records with the
/// identifier where there are any, else what stands for the revoked and the
/// deprecated techniques with it.
pub open spec fn hits_id(
    b: BaselineView,
    lower: Seq<char>,
    subs: bool,
    x: TechniqueView,
) -> bool {
    if exists|y: TechniqueView| active_hit(b, lower, subs, y) {
        active_hit(b, lower, subs, x)
    } else {
        retired_hit(b.revoked_techniques, lower, true, x) || retired_hit(
            b.deprecated_techniques,
            lower,
            false,
            x,
        )
    }
}

/// Puts into `out` what stands for the pairs with the identifier asked for.
pub fn add_retired(
    out: &mut Vec<EnterpriseTechnique>,
    pairs: &Vec<(String, String)>,
    lower: &str,
    revoked: bool,
)
    requires
        sorted::<EnterpriseTechnique>(views(old(out)@)),
    ensures
        sorted::<EnterpriseTechnique>(views(final(out)@)),
        forall|x: TechniqueView|
            #![trigger views(final(out)@).contains(x)]
            #![trigger views(old(out)@).contains(x)]
            #![trigger retired_hit(views(pairs@), lower@, revoked, x)]
            views(final(out)@).contains(x) <==> (views(old(out)@).contains(x) || retired_hit(
                views(pairs@),
                lower@,
                revoked,
                x,
            )),
{
    let ghost start = views(out@);
    let ghost all = views(pairs@);
    let mut i: usize = 0;
    while i < pairs.len()
        invariant
            i <= pairs.len(),
            all == views(pairs@),
            sorted::<EnterpriseTechnique>(views(out@)),
            forall|x: TechniqueView|
                #![trigger views(out@).contains(x)]
                #![trigger start.contains(x)]
                #![trigger retired_hit(all.take(i as int), lower@, revoked, x)]
                views(out@).contains(x) <==> (start.contains(x) || retired_hit(
                    all.take(i as int),
                    lower@,
                    revoked,
                    x,
                )),
        decreases pairs.len() - i,
    {
        let ghost before = views(out@);
        let ghost less = all.take(i as int);
        let ghost more = all.take(i + 1);
        let low = lowercase(pairs[i].0.as_str());
        let taken = same_text(low.as_str(), lower);
        let ghost added = retired(all[i as int], revoked);
        if taken {
            let item = EnterpriseTechnique {
                platforms: Vec::new(),
                tid: pairs[i].0.clone(),
                tactic: String::new(),
                technique: pairs[i].1.clone(),
                datasources: Vec::new(),
                has_subtechniques: false,
                subtechniques: Vec::new(),
                is_revoked: revoked,
                is_deprecated: !revoked,
            };
            proof {
                assert(views(item.platforms@) =~= Seq::empty());
                assert(views(item.datasources@) =~= Seq::empty());
                assert(views(item.subtechniques@) =~= Seq::empty());
                assert(item@ == added);
            }
            insert_keyed(out, item);
        }
        proof {
            let now = views(out@);
            assert(more =~= less.push(all[i as int]));
            assert forall|x: TechniqueView|
                #![trigger now.contains(x)]
                #![trigger start.contains(x)]
                #![trigger retired_hit(more, lower@, revoked, x)]
                now.contains(x) <==> (start.contains(x) || retired_hit(
                    more,
                    lower@,
                    revoked,
                    x,
                )) by {
                assert(now.contains(x) <==> (before.contains(x) || (taken && x == added)));
                assert(before.contains(x) <==> (start.contains(x) || retired_hit(
                    less,
                    lower@,
                    revoked,
                    x,
                )));
                if retired_hit(less, lower@, revoked, x) {
                    let k = choose|k: int|
                        0 <= k < less.len() && lowercase_of((#[trigger] less[k]).0) == lower@ && x
                            == retired(less[k], revoked);
                    assert(more[k] == less[k]);
                }
                if retired_hit(more, lower@, revoked, x) {
                    let k = choose|k: int|
                        0 <= k < more.len() && lowercase_of((#[trigger] more[k]).0) == lower@ && x
                            == retired(more[k], revoked);
                    if k < i {
                        assert(less[k] == more[k]);
                    }
                }
                if taken && x == added {
                    assert(more[i as int] == all[i as int]);
                }
            }
        }
        i = i + 1;
    }
    assert(all.take(i as int) =~= all);
}

/// Whether the datasource does not go with the platform asked for.
pub fn is_mismatched(os: &str, ds: &str) -> (r: bool)
    ensures
        r == mismatched(os@, ds@),
{
    let cloud = starts_with(ds, "aws") || starts_with(ds, "azure") || starts_with(
        ds,
        "stack-driver-logs",
    );
    let client = starts_with(ds, "anti-virus") || starts_with(ds, "bios") || starts_with(
        ds,
        "browser-extensions",
    ) || starts_with(ds, "disk-forensics") || starts_with(ds, "mbr") || starts_with(
        ds,
        "named-pipes",
    ) || starts_with(ds, "vbr") || starts_with(ds, "wmi") || starts_with(ds, "win");
    let office = starts_with(ds, "office-365");
    let none = same_text(os, "n_a");
    let on_cloud = same_text(os, "aws") || same_text(os, "azure") || same_text(os, "gcp")
        || same_text(os, "saas");
    let on_client = same_text(os, "windows") || same_text(os, "macos") || same_text(os, "linux");
    let on_office = same_text(os, "office-365");
    (cloud && !on_cloud && !none) || (client && !on_client && !none) || (office && !on_office
        && !none)
}

/// How many records a datasource serves within one category.
#[derive(Clone, Debug, PartialEq, Eq)]
pub struct CrossCount {
    pub category: String,
    pub count: usize,
}

/// What a count of a cross table holds, as mathematical values.
pub struct CrossCountView {
    pub category: Seq<char>,
    pub count: nat,
}

impl View for CrossCount {
    type V = CrossCountView;

    open spec fn view(&self) -> CrossCountView {
        CrossCountView { category: self.category@, count: self.count as nat }
    }
}

/// The counts of one datasource, category by category.
#[derive(Clone, Debug, PartialEq, Eq)]
pub struct CrossRow {
    pub datasource: String,
    pub counts: Vec<CrossCount>,
}

/// What a row of a cross table holds, as mathematical values.
pub struct CrossRowView {
    pub datasource: Seq<char>,
    pub counts: Seq<CrossCountView>,
}

impl View for CrossRow {
    type V = CrossRowView;

    open spec fn view(&self) -> CrossRowView {
        CrossRowView { datasource: self.datasource@, counts: views(self.counts@) }
    }
}

/// The record is served by the datasource and falls into the category: one of its
/// datasources holds the datasource, and one of its platforms, or else its tactic,
/// holds the category.
pub open spec fn crossing(datasource: Seq<char>, category: Seq<char>, by_platform: bool) -> spec_fn(
    TechniqueView,
) -> bool {
    |v: TechniqueView|
        mentions(v.datasources, datasource) && if by_platform {
            mentions(v.platforms, category)
        } else {
            contains_text(v.tactic, category)
        }
}

/// The categories of a cross table: the snapshot's platforms, or else its tactics.
pub open spec fn cross_categories(b: BaselineView, by_platform: bool) -> Seq<Seq<char>> {
    if by_platform {
        b.platforms
    } else {
        b.tactics
    }
}

/// The count of one datasource within one category among the technique records.
pub open spec fn cross_count(
    b: BaselineView,
    datasource: Seq<char>,
    category: Seq<char>,
    by_platform: bool,
) -> CrossCountView {
    CrossCountView {
        category: category,
        count: b.breakdown_techniques.filter(crossing(datasource, category, by_platform)).len(),
    }
}

/// The counts of one datasource, category by category.
pub open spec fn cross_row(
    b: BaselineView,
    datasource: Seq<char>,
    by_platform: bool,
) -> CrossRowView {
    CrossRowView {
        datasource: datasource,
        counts: Seq::new(
            cross_categories(b, by_platform).len(),
            |j: int| cross_count(b, datasource, cross_categories(b, by_platform)[j], by_platform),
        ),
    }
}

/// The cross table of datasources against platforms, or else against tactics: for
/// every datasource of the snapshot a row, for every category a count.
pub open spec fn cross_table(b: BaselineView, by_platform: bool) -> Seq<CrossRowView> {
    Seq::new(b.datasources.len(), |i: int| cross_row(b, b.datasources[i], by_platform))
}

/// What a query gives back.
#[derive(Clone, Debug, PartialEq, Eq)]
pub enum QueryResult {
    Techniques(Vec<EnterpriseTechnique>),
    Names(Vec<String>),
    Retired(Vec<(String, String)>),
    Stats(EnterpriseMatrixStatistics),
    Cross(Vec<CrossRow>),
    Adversaries(Vec<EnterpriseAdversary>),
    Weapons(Vec<EnterpriseWeapon>),
}

/// What a query gives back, as mathematical values.
pub enum QueryResultView {
    Techniques(Seq<TechniqueView>),
    Names(Seq<Seq<char>>),
    Retired(Seq<(Seq<char>, Seq<char>)>),
    Stats(StatisticsView),
    Cross(Seq<CrossRowView>),
    Adversaries(Seq<AdversaryView>),
    Weapons(Seq<WeaponView>),
}

impl View for QueryResult {
    type V = QueryResultView;

    open spec fn view(&self) -> QueryResultView {
        match self {
            QueryResult::Techniques(v) => QueryResultView::Techniques(views(v@)),
            QueryResult::Names(v) => QueryResultView::Names(views(v@)),
            QueryResult::Retired(v) => QueryResultView::Retired(views(v@)),
            QueryResult::Stats(s) => QueryResultView::Stats(s@),
            QueryResult::Cross(v) => QueryResultView::Cross(views(v@)),
            QueryResult::Adversaries(v) => QueryResultView::Adversaries(views(v@)),
            QueryResult::Weapons(v) => QueryResultView::Weapons(views(v@)),
        }
    }
}

/// What a query of a category for a term owes, over a snapshot.
pub open spec fn answers(
    b: BaselineView,
    category: Category,
    term: Seq<char>,
    subs: bool,
    r: QueryResultView,
) -> bool {
    match category {
        Category::TechniqueId => r matches QueryResultView::Techniques(v) && answer::<
            EnterpriseTechnique,
        >(v, |x: TechniqueView| hits_id(b, lowercase_of(term), subs, x)),
        Category::SubtechniqueId => r matches QueryResultView::Techniques(v) && answer::<
            EnterpriseTechnique,
        >(v, |x: TechniqueView| hits_subtechnique_id(b, term, x)),
        Category::TechniqueName => r matches QueryResultView::Techniques(v) && answer::<
            EnterpriseTechnique,
        >(v, |x: TechniqueView| hits_name(b, term, x)),
        Category::Revoked => r matches QueryResultView::Retired(v) && answer::<(String, String)>(
            v,
            |x: (Seq<char>, Seq<char>)| b.revoked_techniques.contains(x),
        ),
        Category::Stats => r == QueryResultView::Stats(b.stats),
        Category::NoSubtechniques => r matches QueryResultView::Techniques(v) && answer::<
            EnterpriseTechnique,
        >(v, |x: TechniqueView| b.breakdown_techniques.contains(x) && !x.has_subtechniques),
        Category::Techniques => r matches QueryResultView::Techniques(v) && answer::<
            EnterpriseTechnique,
        >(v, |x: TechniqueView| b.breakdown_techniques.contains(x)),
        Category::Subtechniques => r matches QueryResultView::Techniques(v) && answer::<
            EnterpriseTechnique,
        >(v, |x: TechniqueView| b.breakdown_subtechniques.contains(x)),
        Category::Datasources => r matches QueryResultView::Names(v) && answer::<String>(
            v,
            |x: Seq<char>| b.datasources.contains(x),
        ),
        Category::Platforms => r matches QueryResultView::Names(v) && answer::<String>(
            v,
            |x: Seq<char>| b.platforms.contains(x),
        ),
        Category::NoDatasources => r matches QueryResultView::Techniques(v) && answer::<
            EnterpriseTechnique,
        >(
            v,
            |x: TechniqueView|
                (b.breakdown_techniques.contains(x) || b.breakdown_subtechniques.contains(x))
                    && x.datasources.len() == 0,
        ),
        Category::Tactics => r matches QueryResultView::Names(v) && answer::<String>(
            v,
            |x: Seq<char>| b.tactics.contains(x),
        ),
        Category::Deprecated => r matches QueryResultView::Retired(v) && answer::<
            (String, String),
        >(v, |x: (Seq<char>, Seq<char>)| b.deprecated_techniques.contains(x)),
        Category::InitialAccess
        | Category::Execution
        | Category::Persistence
        | Category::PrivilegeEscalation
        | Category::DefenseEvasion
        | Category::CredentialAccess
        | Category::Discovery
        | Category::LateralMovement
        | Category::Collection
        | Category::CommandAndControl
        | Category::Exfiltration
        | Category::Impact => r matches QueryResultView::Techniques(v) && answer::<
            EnterpriseTechnique,
        >(v, |x: TechniqueView| hits_tactic(b, term, subs, x)),
        Category::Aws
        | Category::Azure
        | Category::AzureAd
        | Category::Gcp
        | Category::Linux
        | Category::Macos
        | Category::Office365
        | Category::Saas
        | Category::Windows => r matches QueryResultView::Techniques(v) && answer::<
            EnterpriseTechnique,
        >(v, |x: TechniqueView| hits_platform(b, term, subs, x)),
        Category::Overlap => r matches QueryResultView::Techniques(v) && answer::<
            EnterpriseTechnique,
        >(
            v,
            |x: TechniqueView|
                b.breakdown_techniques.contains(x) && overlaps(b.breakdown_techniques, x),
        ),
        Category::XrefDatasourcesPlatforms => r == QueryResultView::Cross(cross_table(b, true)),
        Category::XrefDatasourcesTactics => r == QueryResultView::Cross(cross_table(b, false)),
        Category::Datasource => r matches QueryResultView::Techniques(v) && answer::<
            EnterpriseTechnique,
        >(v, |x: TechniqueView| hits_datasource(b, term, subs, x)),
        Category::Adversary => r matches QueryResultView::Adversaries(v) && answer::<
            EnterpriseAdversary,
        >(
            v,
            |x: AdversaryView|
                b.breakdown_adversaries.contains(x) && lowercase_of(x.name) == lowercase_of(term),
        ),
        Category::Malware => r matches QueryResultView::Weapons(v) && answer::<
            EnterpriseWeapon,
        >(
            v,
            |x: WeaponView|
                b.breakdown_malware.contains(x) && lowercase_of(x.name) == lowercase_of(term),
        ),
        Category::Tool => r matches QueryResultView::Weapons(v) && answer::<EnterpriseWeapon>(
            v,
            |x: WeaponView|
                b.breakdown_tools.contains(x) && lowercase_of(x.name) == lowercase_of(term),
        ),
        Category::Adversaries => r matches QueryResultView::Adversaries(v) && answer::<
            EnterpriseAdversary,
        >(v, |x: AdversaryView| b.breakdown_adversaries.contains(x)),
        Category::AllMalware => r matches QueryResultView::Weapons(v) && answer::<
            EnterpriseWeapon,
        >(v, |x: WeaponView| b.breakdown_malware.contains(x)),
        Category::Tools => r matches QueryResultView::Weapons(v) && answer::<EnterpriseWeapon>(
            v,
            |x: WeaponView| b.breakdown_tools.contains(x),
        ),
    }
}

/// What one sub-term of a query owes: the answer of its category, or no records
/// where it has none.
pub open spec fn answers_part(
    b: BaselineView,
    part: ClassifiedView,
    subs: bool,
    r: QueryResultView,
) -> bool {
    match part.category {
        Some(category) => answers(b, category, part.term, subs, r),
        None => r == QueryResultView::Techniques(Seq::empty()),
    }
}

/// What a search owes: for each sub-term of the cleaned term, in order, its answer.
pub open spec fn searched(
    b: BaselineView,
    raw: Seq<char>,
    subs: bool,
    rs: Seq<QueryResultView>,
) -> bool {
    &&& rs.len() == classify_parts(registries_of(b), cleaned(raw)).len()
    &&& forall|i: int|
        0 <= i < rs.len() ==> answers_part(
            b,
            classify_parts(registries_of(b), cleaned(raw))[i],
            subs,
            #[trigger] rs[i],
        )
}

/// Counts the technique records that a datasource serves within a category.
pub fn count_crossing(
    records: &Vec<EnterpriseTechnique>,
    datasource: &str,
    category: &str,
    by_platform: bool,
) -> (n: usize)
    ensures
        n == views(records@).filter(crossing(datasource@, category@, by_platform)).len(),
{
    let ghost all = views(records@);
    let ghost want = crossing(datasource@, category@, by_platform);
    let mut n: usize = 0;
    let mut i: usize = 0;
    proof {
        reveal(Seq::filter);
        assert(all.take(0) =~= Seq::empty());
    }
    while i < records.len()
        invariant
            i <= records.len(),
            all == views(records@),
            want == crossing(datasource@, category@, by_platform),
            n <= i,
            n == all.take(i as int).filter(want).len(),
        decreases records.len() - i,
    {
        proof {
            reveal(Seq::filter);
            assert(all.take(i + 1).drop_last() =~= all.take(i as int));
            assert(all.take(i + 1).last() == records[i as int]@);
        }
        let served = any_mentions(&records[i].datasources, datasource);
        let within = if by_platform {
            any_mentions(&records[i].platforms, category)
        } else {
            contains(records[i].tactic.as_str(), category)
        };
        if served && within {
            n = n + 1;
        }
        i = i + 1;
    }
    assert(all.take(i as int) =~= all);
    n
}

impl EnterpriseMatrixBreakdown {
    /// The techniques under a tactic, and its subtechniques too where asked for.
    pub fn search_by_tactic(&self, tactic: &str, wants_subtechniques: bool) -> (r: Vec<
        EnterpriseTechnique,
    >)
        ensures
            answer::<EnterpriseTechnique>(
                views(r@),
                |x: TechniqueView| hits_tactic(self@, tactic@, wants_subtechniques, x),
            ),
    {
        let mut r: Vec<EnterpriseTechnique> = Vec::new();
        let rule = UnderTactic { term: tactic.to_owned() };
        select(&mut r, &self.breakdown_techniques, &rule);
        if wants_subtechniques {
            select(&mut r, &self.breakdown_subtechniques, &rule);
        }
        proof {
            assert forall|x: TechniqueView|
                #![trigger views(r@).contains(x)]
                views(r@).contains(x) <==> hits_tactic(
                    self@,
                    tactic@,
                    wants_subtechniques,
                    x,
                ) by {
                lemma_picked_plain(self@.breakdown_techniques, rule, x);
                lemma_picked_plain(self@.breakdown_subtechniques, rule, x);
            }
        }
        r
    }

    /// The techniques on a platform, and its subtechniques too where asked for, each
    /// reported for that platform alone.
    pub fn search_by_platform(&self, platform: &str, wants_subtechniques: bool) -> (r: Vec<
        EnterpriseTechnique,
    >)
        ensures
            answer::<EnterpriseTechnique>(
                views(r@),
                |x: TechniqueView|
                    hits_platform(self@, platform@, wants_subtechniques, x),
            ),
    {
        let mut r: Vec<EnterpriseTechnique> = Vec::new();
        let rule = OnPlatform { term: platform.to_owned() };
        select(&mut r, &self.breakdown_techniques, &rule);
        if wants_subtechniques {
            select(&mut r, &self.breakdown_subtechniques, &rule);
        }
        proof {
            let accept = |v: TechniqueView| mentions(v.platforms, platform@);
            let shape = |v: TechniqueView| on_platform(v, platform@);
            assert forall|x: TechniqueView|
                #![trigger views(r@).contains(x)]
                views(r@).contains(x) <==> hits_platform(
                    self@,
                    platform@,
                    wants_subtechniques,
                    x,
                ) by {
                lemma_picked_reported(self@.breakdown_techniques, rule, accept, shape, x);
                lemma_picked_reported(self@.breakdown_subtechniques, rule, accept, shape, x);
            }
        }
        r
    }

    /// The techniques that a datasource serves, or the subtechniques where those are
    /// asked for, each reported for that datasource alone on the platform asked for.
    /// The term is a datasource, or a platform, a colon and a datasource.
    pub fn search_by_datasource(&self, datasource: &str, wants_subtechniques: bool) -> (r: Vec<
        EnterpriseTechnique,
    >)
        ensures
            answer::<EnterpriseTechnique>(
                views(r@),
                |x: TechniqueView|
                    hits_datasource(self@, datasource@, wants_subtechniques, x),
            ),
    {
        let mut r: Vec<EnterpriseTechnique> = Vec::new();
        let mut os = "n_a".to_owned();
        let mut ds = datasource.to_owned();
        if has_char(datasource, ':') {
            let parts = split(datasource, ':');
            proof {
                lemma_split_len(datasource@, ':');
            }
            os = parts[0].clone();
            ds = parts[1].clone();
            assert(views(parts@)[0] == parts[0]@ && views(parts@)[1] == parts[1]@);
        }
        assert(os@ == asked_platform(datasource@));
        assert(ds@ == asked_datasource(datasource@));
        if !is_mismatched(os.as_str(), ds.as_str()) {
            let rule = FromDatasource { platform: os, datasource: ds };
            if wants_subtechniques {
                select(&mut r, &self.breakdown_subtechniques, &rule);
            } else {
                select(&mut r, &self.breakdown_techniques, &rule);
            }
            proof {
                let accept = |v: TechniqueView|
                    mentions(v.datasources, asked_datasource(datasource@));
                let shape = |v: TechniqueView|
                    from_datasource(
                        v,
                        asked_platform(datasource@),
                        asked_datasource(datasource@),
                    );
                assert forall|x: TechniqueView|
                    #![trigger views(r@).contains(x)]
                    views(r@).contains(x) <==> hits_datasource(
                        self@,
                        datasource@,
                        wants_subtechniques,
                        x,
                    ) by {
                    lemma_picked_reported(
                        self@.breakdown_techniques,
                        rule,
                        accept,
                        shape,
                        x,
                    );
                    lemma_picked_reported(
                        self@.breakdown_subtechniques,
                        rule,
                        accept,
                        shape,
                        x,
                    );
                }
            }
        }
        r
    }

    /// The subtechniques with an identifier, whatever the case of its letters.
    pub fn search_by_subtechnique_id(&self, technique_id: &str) -> (r: Vec<EnterpriseTechnique>)
        ensures
            answer::<EnterpriseTechnique>(
                views(r@),
                |x: TechniqueView| hits_subtechnique_id(self@, technique_id@, x),
            ),
    {
        let mut r: Vec<EnterpriseTechnique> = Vec::new();
        let rule = WithId { term: lowercase(technique_id) };
        select(&mut r, &self.breakdown_subtechniques, &rule);
        proof {
            assert forall|x: TechniqueView|
                #![trigger views(r@).contains(x)]
                views(r@).contains(x) <==> hits_subtechnique_id(self@, technique_id@, x) by {
                lemma_picked_plain(self@.breakdown_subtechniques, rule, x);
            }
        }
        r
    }

    /// The techniques and subtechniques whose name holds a text, whatever the case of
    /// the letters.
    pub fn search_by_name(&self, technique_name: &str) -> (r: Vec<EnterpriseTechnique>)
        ensures
            answer::<EnterpriseTechnique>(
                views(r@),
                |x: TechniqueView| hits_name(self@, technique_name@, x),
            ),
    {
        let mut r: Vec<EnterpriseTechnique> = Vec::new();
        let rule = NamedLike { term: lowercase(technique_name) };
        select(&mut r, &self.breakdown_techniques, &rule);
        select(&mut r, &self.breakdown_subtechniques, &rule);
        proof {
            assert forall|x: TechniqueView|
                #![trigger views(r@).contains(x)]
                views(r@).contains(x) <==> hits_name(self@, technique_name@, x) by {
                lemma_picked_plain(self@.breakdown_techniques, rule, x);
                lemma_picked_plain(self@.breakdown_subtechniques, rule, x);
            }
        }
        r
    }

    /// The techniques without subtechniques.
    pub fn search_by_no_subtechniques(&self) -> (r: Vec<EnterpriseTechnique>)
        ensures
            answer::<EnterpriseTechnique>(
                views(r@),
                |x: TechniqueView|
                    self@.breakdown_techniques.contains(x) && !x.has_subtechniques,
            ),
    {
        let mut r: Vec<EnterpriseTechnique> = Vec::new();
        let rule = Childless {  };
        select(&mut r, &self.breakdown_techniques, &rule);
        proof {
            assert forall|x: TechniqueView|
                #![trigger views(r@).contains(x)]
                views(r@).contains(x) <==> (self@.breakdown_techniques.contains(x)
                    && !x.has_subtechniques) by {
                lemma_picked_plain(self@.breakdown_techniques, rule, x);
            }
        }
        r
    }

    /// The techniques and subtechniques without datasources.
    pub fn search_by_no_datasources(&self) -> (r: Vec<EnterpriseTechnique>)
        ensures
            answer::<EnterpriseTechnique>(
                views(r@),
                |x: TechniqueView|
                    (self@.breakdown_techniques.contains(x) || (
                    self@).breakdown_subtechniques.contains(x)) && x.datasources.len()
                        == 0,
            ),
    {
        let mut r: Vec<EnterpriseTechnique> = Vec::new();
        let rule = Sourceless {  };
        select(&mut r, &self.breakdown_techniques, &rule);
        select(&mut r, &self.breakdown_subtechniques, &rule);
        proof {
            assert forall|x: TechniqueView|
                #![trigger views(r@).contains(x)]
                views(r@).contains(x) <==> ((self@.breakdown_techniques.contains(x)
                    || self@.breakdown_subtechniques.contains(x)) && x.datasources.len()
                    == 0) by {
                lemma_picked_plain(self@.breakdown_techniques, rule, x);
                lemma_picked_plain(self@.breakdown_subtechniques, rule, x);
            }
        }
        r
    }

    /// All technique records.
    pub fn search_all_techniques(&self) -> (r: Vec<EnterpriseTechnique>)
        ensures
            answer::<EnterpriseTechnique>(
                views(r@),
                |x: TechniqueView| self@.breakdown_techniques.contains(x),
            ),
    {
        let mut r: Vec<EnterpriseTechnique> = Vec::new();
        let rule = Everything {  };
        select(&mut r, &self.breakdown_techniques, &rule);
        proof {
            assert forall|x: TechniqueView|
                #![trigger views(r@).contains(x)]
                views(r@).contains(x) <==> self@.breakdown_techniques.contains(x) by {
                lemma_picked_plain::<EnterpriseTechnique, Everything>(
                    self@.breakdown_techniques,
                    rule,
                    x,
                );
            }
        }
        r
    }

    /// All subtechnique records.
    pub fn search_all_subtechniques(&self) -> (r: Vec<EnterpriseTechnique>)
        ensures
            answer::<EnterpriseTechnique>(
                views(r@),
                |x: TechniqueView| self@.breakdown_subtechniques.contains(x),
            ),
    {
        let mut r: Vec<EnterpriseTechnique> = Vec::new();
        let rule = Everything {  };
        select(&mut r, &self.breakdown_subtechniques, &rule);
        proof {
            assert forall|x: TechniqueView|
                #![trigger views(r@).contains(x)]
                views(r@).contains(x) <==> self@.breakdown_subtechniques.contains(x) by {
                lemma_picked_plain::<EnterpriseTechnique, Everything>(
                    self@.breakdown_subtechniques,
                    rule,
                    x,
                );
            }
        }
        r
    }

    /// The technique records whose identifier stands under more than one tactic.
    pub fn search_all_overlapped(&self) -> (r: Vec<EnterpriseTechnique>)
        ensures
            answer::<EnterpriseTechnique>(
                views(r@),
                |x: TechniqueView|
                    self@.breakdown_techniques.contains(x) && overlaps(
                        self@.breakdown_techniques,
                        x,
                    ),
            ),
    {
        let mut r: Vec<EnterpriseTechnique> = Vec::new();
        let rule = Overlapped { all: &self.breakdown_techniques };
        select(&mut r, &self.breakdown_techniques, &rule);
        proof {
            assert forall|x: TechniqueView|
                #![trigger views(r@).contains(x)]
                views(r@).contains(x) <==> (self@.breakdown_techniques.contains(x)
                    && overlaps(self@.breakdown_techniques, x)) by {
                lemma_picked_plain(self@.breakdown_techniques, rule, x);
            }
        }
        r
    }

    /// The records with an identifier, whatever the case of its letters: the
    /// technique, and with it its subtechniques where those are asked for; or, where
    /// no active record is found, what stands for the revoked and deprecated
    /// techniques with the identifier.
    pub fn search_by_id(&self, technique_id: &str, wants_subtechniques: bool) -> (r: Vec<
        EnterpriseTechnique,
    >)
        ensures
            answer::<EnterpriseTechnique>(
                views(r@),
                |x: TechniqueView|
                    hits_id(
                        self@,
                        lowercase_of(technique_id@),
                        wants_subtechniques,
                        x,
                    ),
            ),
    {
        let mut r: Vec<EnterpriseTechnique> = Vec::new();
        let lower = lowercase(technique_id);
        let ghost low = lower@;
        let ghost parents = self@.breakdown_techniques;
        let ghost children = self@.breakdown_subtechniques;
        let rule = WithId { term: lower.clone() };
        select(&mut r, &self.breakdown_techniques, &rule);
        proof {
            assert forall|x: TechniqueView|
                #![trigger views(r@).contains(x)]
                views(r@).contains(x) <==> (parents.contains(x) && rule.accepts(x)) by {
                lemma_picked_plain(parents, rule, x);
            }
        }
        if wants_subtechniques {
            let mut i: usize = 0;
            while i < self.breakdown_techniques.len()
                invariant
                    i <= self.breakdown_techniques.len(),
                    parents == self@.breakdown_techniques,
                    children == self@.breakdown_subtechniques,
                    low == lower@,
                    rule.term@ == low,
                    sorted::<EnterpriseTechnique>(views(r@)),
                    forall|x: TechniqueView|
                        #![trigger views(r@).contains(x)]
                        views(r@).contains(x) <==> ((parents.contains(x) && rule.accepts(
                            x,
                        )) || child_hit(parents.take(i as int), children, low, x)),
                decreases self.breakdown_techniques.len() - i,
            {
                let ghost before = views(r@);
                let ghost less = parents.take(i as int);
                let ghost more = parents.take(i + 1);
                let taken = rule.test(&self.breakdown_techniques[i]);
                let kids = ChildrenOf { parent: self.breakdown_techniques[i].tid.clone() };
                if taken {
                    select(&mut r, &self.breakdown_subtechniques, &kids);
                }
                proof {
                    let now = views(r@);
                    assert(more =~= less.push(parents[i as int]));
                    assert forall|x: TechniqueView|
                        #![trigger now.contains(x)]
                        now.contains(x) <==> ((parents.contains(x) && rule.accepts(x))
                            || child_hit(more, children, low, x)) by {
                        lemma_picked_plain(children, kids, x);
                        assert(now.contains(x) <==> (before.contains(x) || (taken
                            && picked(children, kids, x))));
                        if child_hit(less, children, low, x) {
                            let k = choose|k: int|
                                0 <= k < less.len() && lowercase_of(
                                    (#[trigger] less[k]).tid,
                                ) == low && children.contains(x) && contains_text(
                                    x.tid,
                                    less[k].tid,
                                );
                            assert(more[k] == less[k]);
                        }
                        if child_hit(more, children, low, x) {
                            let k = choose|k: int|
                                0 <= k < more.len() && lowercase_of(
                                    (#[trigger] more[k]).tid,
                                ) == low && children.contains(x) && contains_text(
                                    x.tid,
                                    more[k].tid,
                                );
                            if k < i {
                                assert(less[k] == more[k]);
                            } else {
                                assert(more[k] == parents[i as int]);
                            }
                        }
                        if taken && picked(children, kids, x) {
                            assert(more[i as int] == parents[i as int]);
                        }
                    }
                }
                i = i + 1;
            }
            assert(parents.take(i as int) =~= parents);
        }
        assert forall|x: TechniqueView|
            #![trigger views(r@).contains(x)]
            views(r@).contains(x) <==> active_hit(self@, low, wants_subtechniques, x) by {
            if !wants_subtechniques {
                assert(!child_hit(parents.take(0), children, low, x));
            }
        }
        if r.len() == 0 {
            proof {
                assert forall|y: TechniqueView|
                    !active_hit(self@, low, wants_subtechniques, y) by {
                    assert(!views(r@).contains(y));
                }
            }
            add_retired(&mut r, &self.revoked_techniques, lower.as_str(), true);
            add_retired(&mut r, &self.deprecated_techniques, lower.as_str(), false);
        } else {
            proof {
                assert(views(r@)[0] == r[0]@);
                assert(views(r@).contains(r[0]@));
                assert(active_hit(self@, low, wants_subtechniques, r[0]@));
            }
        }
        r
    }

    /// The revoked techniques, identifier and name.
    pub fn search_revoked(&self) -> (r: Vec<(String, String)>)
        ensures
            answer::<(String, String)>(
                views(r@),
                |x: (Seq<char>, Seq<char>)| self@.revoked_techniques.contains(x),
            ),
    {
        let mut r: Vec<(String, String)> = Vec::new();
        let rule = Everything {  };
        select(&mut r, &self.revoked_techniques, &rule);
        proof {
            assert forall|x: (Seq<char>, Seq<char>)|
                #![trigger views(r@).contains(x)]
                views(r@).contains(x) <==> self@.revoked_techniques.contains(x) by {
                lemma_picked_plain::<(String, String), Everything>(
                    self@.revoked_techniques,
                    rule,
                    x,
                );
            }
        }
        r
    }

    /// The deprecated techniques, identifier and name.
    pub fn search_by_deprecated(&self) -> (r: Vec<(String, String)>)
        ensures
            answer::<(String, String)>(
                views(r@),
                |x: (Seq<char>, Seq<char>)| self@.deprecated_techniques.contains(x),
            ),
    {
        let mut r: Vec<(String, String)> = Vec::new();
        let rule = Everything {  };
        select(&mut r, &self.deprecated_techniques, &rule);
        proof {
            assert forall|x: (Seq<char>, Seq<char>)|
                #![trigger views(r@).contains(x)]
                views(r@).contains(x) <==> self@.deprecated_techniques.contains(x) by {
                lemma_picked_plain::<(String, String), Everything>(
                    self@.deprecated_techniques,
                    rule,
                    x,
                );
            }
        }
        r
    }

    /// The names of a list, each once, in order.
    fn names_in_order(names: &Vec<String>) -> (r: Vec<String>)
        ensures
            answer::<String>(views(r@), |x: Seq<char>| views(names@).contains(x)),
    {
        let mut r: Vec<String> = Vec::new();
        let rule = Everything {  };
        select(&mut r, names, &rule);
        proof {
            assert forall|x: Seq<char>|
                #![trigger views(r@).contains(x)]
                views(r@).contains(x) <==> views(names@).contains(x) by {
                lemma_picked_plain::<String, Everything>(views(names@), rule, x);
            }
        }
        r
    }

    /// The tactics of the snapshot.
    pub fn search_all_tactics(&self) -> (r: Vec<String>)
        ensures
            answer::<String>(views(r@), |x: Seq<char>| self@.tactics.contains(x)),
    {
        Self::names_in_order(&self.tactics)
    }

    /// The platforms of the snapshot.
    pub fn search_all_platforms(&self) -> (r: Vec<String>)
        ensures
            answer::<String>(views(r@), |x: Seq<char>| self@.platforms.contains(x)),
    {
        Self::names_in_order(&self.platforms)
    }

    /// The datasources of the snapshot.
    pub fn search_all_datasources(&self) -> (r: Vec<String>)
        ensures
            answer::<String>(
                views(r@),
                |x: Seq<char>| self@.datasources.contains(x),
            ),
    {
        Self::names_in_order(&self.datasources)
    }

    /// The counters of the snapshot.
    pub fn search_stats(&self) -> (r: EnterpriseMatrixStatistics)
        ensures
            r@ == self@.stats,
    {
        self.stats.copy()
    }

    /// The cross table of the snapshot's datasources against its platforms, or else
    /// against its tactics.
    fn cross(&self, by_platform: bool) -> (r: Vec<CrossRow>)
        ensures
            views(r@) == cross_table(self@, by_platform),
    {
        let mut r: Vec<CrossRow> = Vec::new();
        let ghost want = cross_table(self@, by_platform);
        let categories = if by_platform {
            &self.platforms
        } else {
            &self.tactics
        };
        assert(views(categories@) == cross_categories(self@, by_platform));
        let mut i: usize = 0;
        while i < self.datasources.len()
            invariant
                i <= self.datasources.len(),
                want == cross_table(self@, by_platform),
                views(categories@) == cross_categories(self@, by_platform),
                views(r@) == want.take(i as int),
            decreases self.datasources.len() - i,
        {
            let ghost before = views(r@);
            let ghost row = cross_row(self@, self@.datasources[i as int], by_platform);
            let mut counts: Vec<CrossCount> = Vec::new();
            let mut j: usize = 0;
            while j < categories.len()
                invariant
                    j <= categories.len(),
                    i < self.datasources.len(),
                    views(categories@) == cross_categories(self@, by_platform),
                    row == cross_row(self@, self@.datasources[i as int], by_platform),
                    views(counts@) == row.counts.take(j as int),
                decreases categories.len() - j,
            {
                let ghost so_far = views(counts@);
                let n = count_crossing(
                    &self.breakdown_techniques,
                    self.datasources[i].as_str(),
                    categories[j].as_str(),
                    by_platform,
                );
                let cell = CrossCount { category: categories[j].clone(), count: n };
                assert(views(categories@)[j as int] == categories[j as int]@);
                assert(cell@ == row.counts[j as int]);
                counts.push(cell);
                assert(views(counts@) =~= so_far.push(row.counts[j as int]));
                j = j + 1;
                assert(views(counts@) =~= row.counts.take(j as int));
            }
            assert(row.counts.take(j as int) =~= row.counts);
            let line = CrossRow { datasource: self.datasources[i].clone(), counts: counts };
            assert(line@ == want[i as int]);
            r.push(line);
            assert(views(r@) =~= before.push(want[i as int]));
            i = i + 1;
            assert(views(r@) =~= want.take(i as int));
        }
        assert(want.take(i as int) =~= want);
        r
    }

    /// For every datasource and every platform of the snapshot, how many technique
    /// records the datasource serves on the platform.
    pub fn search_stats_datasources_and_platforms(&self) -> (r: Vec<CrossRow>)
        ensures
            views(r@) == cross_table(self@, true),
    {
        self.cross(true)
    }

    /// For every datasource and every tactic of the snapshot, how many technique
    /// records the datasource serves under the tactic.
    pub fn search_stats_datasources_and_tactics(&self) -> (r: Vec<CrossRow>)
        ensures
            views(r@) == cross_table(self@, false),
    {
        self.cross(false)
    }

    /// The adversaries with a name, whatever the case of its letters.
    pub fn search_by_adversary(&self, adversary: &str) -> (r: Vec<EnterpriseAdversary>)
        ensures
            answer::<EnterpriseAdversary>(
                views(r@),
                |x: AdversaryView|
                    self@.breakdown_adversaries.contains(x) && lowercase_of(x.name)
                        == lowercase_of(adversary@),
            ),
    {
        let mut r: Vec<EnterpriseAdversary> = Vec::new();
        let rule = AdversaryNamed { term: lowercase(adversary) };
        select(&mut r, &self.breakdown_adversaries, &rule);
        proof {
            assert forall|x: AdversaryView|
                #![trigger views(r@).contains(x)]
                views(r@).contains(x) <==> (self@.breakdown_adversaries.contains(x)
                    && lowercase_of(x.name) == lowercase_of(adversary@)) by {
                lemma_picked_plain(self@.breakdown_adversaries, rule, x);
            }
        }
        r
    }

    /// The pieces of software of a list with a name, whatever the case of its letters.
    fn weapons_named(pool: &Vec<EnterpriseWeapon>, name: &str) -> (r: Vec<EnterpriseWeapon>)
        ensures
            answer::<EnterpriseWeapon>(
                views(r@),
                |x: WeaponView|
                    views(pool@).contains(x) && lowercase_of(x.name) == lowercase_of(name@),
            ),
    {
        let mut r: Vec<EnterpriseWeapon> = Vec::new();
        let rule = WeaponNamed { term: lowercase(name) };
        select(&mut r, pool, &rule);
        proof {
            assert forall|x: WeaponView|
                #![trigger views(r@).contains(x)]
                views(r@).contains(x) <==> (views(pool@).contains(x) && lowercase_of(x.name)
                    == lowercase_of(name@)) by {
                lemma_picked_plain(views(pool@), rule, x);
            }
        }
        r
    }

    /// All the pieces of software of a list, each once, in order.
    fn weapons_in_order(pool: &Vec<EnterpriseWeapon>) -> (r: Vec<EnterpriseWeapon>)
        ensures
            answer::<EnterpriseWeapon>(views(r@), |x: WeaponView| views(pool@).contains(x)),
    {
        let mut r: Vec<EnterpriseWeapon> = Vec::new();
        let rule = Everything {  };
        select(&mut r, pool, &rule);
        proof {
            assert forall|x: WeaponView|
                #![trigger views(r@).contains(x)]
                views(r@).contains(x) <==> views(pool@).contains(x) by {
                lemma_picked_plain::<EnterpriseWeapon, Everything>(views(pool@), rule, x);
            }
        }
        r
    }

    /// The pieces of malware with a name, whatever the case of its letters.
    pub fn search_by_malware(&self, malware: &str) -> (r: Vec<EnterpriseWeapon>)
        ensures
            answer::<EnterpriseWeapon>(
                views(r@),
                |x: WeaponView|
                    self@.breakdown_malware.contains(x) && lowercase_of(x.name)
                        == lowercase_of(malware@),
            ),
    {
        Self::weapons_named(&self.breakdown_malware, malware)
    }

    /// The tools with a name, whatever the case of its letters.
    pub fn search_by_tool(&self, tool: &str) -> (r: Vec<EnterpriseWeapon>)
        ensures
            answer::<EnterpriseWeapon>(
                views(r@),
                |x: WeaponView|
                    self@.breakdown_tools.contains(x) && lowercase_of(x.name)
                        == lowercase_of(tool@),
            ),
    {
        Self::weapons_named(&self.breakdown_tools, tool)
    }

    /// All adversaries.
    pub fn search_all_adversaries(&self) -> (r: Vec<EnterpriseAdversary>)
        ensures
            answer::<EnterpriseAdversary>(
                views(r@),
                |x: AdversaryView| self@.breakdown_adversaries.contains(x),
            ),
    {
        let mut r: Vec<EnterpriseAdversary> = Vec::new();
        let rule = Everything {  };
        select(&mut r, &self.breakdown_adversaries, &rule);
        proof {
            assert forall|x: AdversaryView|
                #![trigger views(r@).contains(x)]
                views(r@).contains(x) <==> self@.breakdown_adversaries.contains(x) by {
                lemma_picked_plain::<EnterpriseAdversary, Everything>(
                    self@.breakdown_adversaries,
                    rule,
                    x,
                );
            }
        }
        r
    }

    /// All malware.
    pub fn search_all_malware(&self) -> (r: Vec<EnterpriseWeapon>)
        ensures
            answer::<EnterpriseWeapon>(
                views(r@),
                |x: WeaponView| self@.breakdown_malware.contains(x),
            ),
    {
        Self::weapons_in_order(&self.breakdown_malware)
    }

    /// All tools.
    pub fn search_all_tools(&self) -> (r: Vec<EnterpriseWeapon>)
        ensures
            answer::<EnterpriseWeapon>(
                views(r@),
                |x: WeaponView| self@.breakdown_tools.contains(x),
            ),
    {
        Self::weapons_in_order(&self.breakdown_tools)
    }

    /// Answers a query of one category for one term.
    pub fn dispatch(&self, category: Category, term: &str, wants_subtechniques: bool) -> (r:
        QueryResult)
        ensures
            answers(self@, category, term@, wants_subtechniques, r@),
    {
        match category {
            Category::TechniqueId => QueryResult::Techniques(
                self.search_by_id(term, wants_subtechniques),
            ),
            Category::SubtechniqueId => QueryResult::Techniques(
                self.search_by_subtechnique_id(term),
            ),
            Category::TechniqueName => QueryResult::Techniques(self.search_by_name(term)),
            Category::Revoked => QueryResult::Retired(self.search_revoked()),
            Category::Stats => QueryResult::Stats(self.search_stats()),
            Category::NoSubtechniques => QueryResult::Techniques(
                self.search_by_no_subtechniques(),
            ),
            Category::Techniques => QueryResult::Techniques(self.search_all_techniques()),
            Category::Subtechniques => QueryResult::Techniques(self.search_all_subtechniques()),
            Category::Datasources => QueryResult::Names(self.search_all_datasources()),
            Category::Platforms => QueryResult::Names(self.search_all_platforms()),
            Category::NoDatasources => QueryResult::Techniques(self.search_by_no_datasources()),
            Category::Tactics => QueryResult::Names(self.search_all_tactics()),
            Category::Deprecated => QueryResult::Retired(self.search_by_deprecated()),
            Category::InitialAccess
            | Category::Execution
            | Category::Persistence
            | Category::PrivilegeEscalation
            | Category::DefenseEvasion
            | Category::CredentialAccess
            | Category::Discovery
            | Category::LateralMovement
            | Category::Collection
            | Category::CommandAndControl
            | Category::Exfiltration
            | Category::Impact => QueryResult::Techniques(
                self.search_by_tactic(term, wants_subtechniques),
            ),
            Category::Aws
            | Category::Azure
            | Category::AzureAd
            | Category::Gcp
            | Category::Linux
            | Category::Macos
            | Category::Office365
            | Category::Saas
            | Category::Windows => QueryResult::Techniques(
                self.search_by_platform(term, wants_subtechniques),
            ),
            Category::Overlap => QueryResult::Techniques(self.search_all_overlapped()),
            Category::XrefDatasourcesPlatforms => QueryResult::Cross(
                self.search_stats_datasources_and_platforms(),
            ),
            Category::XrefDatasourcesTactics => QueryResult::Cross(
                self.search_stats_datasources_and_tactics(),
            ),
            Category::Datasource => QueryResult::Techniques(
                self.search_by_datasource(term, wants_subtechniques),
            ),
            Category::Adversary => QueryResult::Adversaries(self.search_by_adversary(term)),
            Category::Malware => QueryResult::Weapons(self.search_by_malware(term)),
            Category::Tool => QueryResult::Weapons(self.search_by_tool(term)),
            Category::Adversaries => QueryResult::Adversaries(self.search_all_adversaries()),
            Category::AllMalware => QueryResult::Weapons(self.search_all_malware()),
            Category::Tools => QueryResult::Weapons(self.search_all_tools()),
        }
    }
}

impl EnterpriseMatrixSearcher {
    /// A searcher for the matrix, named in any case, over the snapshot given; it keeps
    /// the snapshot only for the `enterprise` matrix.
    pub fn new(matrix_type: &str, content: Option<EnterpriseMatrixBreakdown>) -> (r: Self)
        ensures
            r@.matrix == lowercase_of(matrix_type@),
            r@.content == if lowercase_of(matrix_type@) == "enterprise"@ {
                loaded(content)
            } else {
                None
            },
    {
        let matrix = lowercase(matrix_type);
        if same_text(matrix.as_str(), "enterprise") {
            EnterpriseMatrixSearcher { matrix: matrix, content: content }
        } else {
            EnterpriseMatrixSearcher { matrix: matrix, content: None }
        }
    }
    /// Answers a free-text query: cleans the term, classifies each of its
    /// comma-separated sub-terms on its own, and gives the answer of each, in order; a
    /// sub-term that no rule takes gives no records. Fails only where no snapshot is
    /// loaded.
    pub fn search(&self, search_term: &str, wants_subtechniques: bool) -> (r: Result<
        Vec<QueryResult>,
        MatrixError,
    >)
        ensures
            match r {
                Ok(rs) => self@.content is Some && searched(
                    self@.content->0,
                    search_term@,
                    wants_subtechniques,
                    views(rs@),
                ),
                Err(e) => e == MatrixError::MissingBaseline && self@.content is None,
            },
    {
        match &self.content {
            None => Err(MatrixError::MissingBaseline),
            Some(b) => {
                let classifier = TermClassifier::new(b);
                let term = clean(search_term);
                let pieces = split(term.as_str(), ',');
                let ghost parts = classify_parts(registries_of(b@), cleaned(search_term@));
                let mut rs: Vec<QueryResult> = Vec::new();
                let mut i: usize = 0;
                while i < pieces.len()
                    invariant
                        i <= pieces.len(),
                        self@.content == Some(b@),
                        classifier@ == registries_of(b@),
                        views(pieces@) == split_on(cleaned(search_term@), ','),
                        parts == classify_parts(registries_of(b@), cleaned(search_term@)),
                        rs.len() == i,
                        forall|k: int|
                            0 <= k < i ==> answers_part(
                                b@,
                                parts[k],
                                wants_subtechniques,
                                #[trigger] views(rs@)[k],
                            ),
                    decreases pieces.len() - i,
                {
                    let ghost before = views(rs@);
                    assert(views(pieces@)[i as int] == pieces[i as int]@);
                    let result = match classifier.classify_term(pieces[i].as_str()) {
                        Some(category) => b.dispatch(
                            category,
                            pieces[i].as_str(),
                            wants_subtechniques,
                        ),
                        None => {
                            let none: Vec<EnterpriseTechnique> = Vec::new();
                            assert(views(none@) =~= Seq::empty());
                            QueryResult::Techniques(none)
                        },
                    };
                    assert(answers_part(b@, parts[i as int], wants_subtechniques, result@));
                    rs.push(result);
                    assert(views(rs@) =~= before.push(result@));
                    i = i + 1;
                }
                Ok(rs)
            },
        }
    }
}

} // verus!
