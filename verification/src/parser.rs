use vstd::prelude::*;
use crate::bundle::MissingField;
use crate::enterprise::{
    AdversaryView, EnterpriseAdversary, EnterpriseWeapon, EnterpriseTechnique, WeaponView,
    TechniqueView,
};
use crate::gather::same_items;
use crate::keyed::sorted;
use crate::lex::views;
use crate::normalizer::hyphenated;
use crate::stats::{
    category_rows, count_categories, count_pairs, get_percentage, known_platforms, known_tactics,
    lemma_tally_of_none, no_statistics, percent_text, platform_names, tactic_names, tally,
    EnterpriseMatrixStatistics, Selector, SelectorView, StatisticsView,
};

verus! {

/// The snapshot that ingestion leaves and queries read.
#[derive(Clone, Debug, PartialEq, Eq)]
pub struct EnterpriseMatrixBreakdown {
    pub tactics: Vec<String>,
    pub platforms: Vec<String>,
    pub datasources: Vec<String>,
    pub revoked_techniques: Vec<(String, String)>,
    pub deprecated_techniques: Vec<(String, String)>,
    pub breakdown_techniques: Vec<EnterpriseTechnique>,
    pub breakdown_subtechniques: Vec<EnterpriseTechnique>,
    pub uniques_techniques: Vec<String>,
    pub uniques_subtechniques: Vec<String>,
    pub adversaries: Vec<String>,
    pub malware: Vec<String>,
    pub tools: Vec<String>,
    pub breakdown_adversaries: Vec<EnterpriseAdversary>,
    pub breakdown_malware: Vec<EnterpriseWeapon>,
    pub breakdown_tools: Vec<EnterpriseWeapon>,
    pub stats: EnterpriseMatrixStatistics,
}

/// What a snapshot holds, as mathematical values.
pub struct BaselineView {
    pub tactics: Seq<Seq<char>>,
    pub platforms: Seq<Seq<char>>,
    pub datasources: Seq<Seq<char>>,
    pub revoked_techniques: Seq<(Seq<char>, Seq<char>)>,
    pub deprecated_techniques: Seq<(Seq<char>, Seq<char>)>,
    pub breakdown_techniques: Seq<TechniqueView>,
    pub breakdown_subtechniques: Seq<TechniqueView>,
    pub uniques_techniques: Seq<Seq<char>>,
    pub uniques_subtechniques: Seq<Seq<char>>,
    pub adversaries: Seq<Seq<char>>,
    pub malware: Seq<Seq<char>>,
    pub tools: Seq<Seq<char>>,
    pub breakdown_adversaries: Seq<AdversaryView>,
    pub breakdown_malware: Seq<WeaponView>,
    pub breakdown_tools: Seq<WeaponView>,
    pub stats: StatisticsView,
}

impl View for EnterpriseMatrixBreakdown {
    type V = BaselineView;

    open spec fn view(&self) -> BaselineView {
        BaselineView {
            tactics: views(self.tactics@),
            platforms: views(self.platforms@),
            datasources: views(self.datasources@),
            revoked_techniques: views(self.revoked_techniques@),
            deprecated_techniques: views(self.deprecated_techniques@),
            breakdown_techniques: views(self.breakdown_techniques@),
            breakdown_subtechniques: views(self.breakdown_subtechniques@),
            uniques_techniques: views(self.uniques_techniques@),
            uniques_subtechniques: views(self.uniques_subtechniques@),
            adversaries: views(self.adversaries@),
            malware: views(self.malware@),
            tools: views(self.tools@),
            breakdown_adversaries: views(self.breakdown_adversaries@),
            breakdown_malware: views(self.breakdown_malware@),
            breakdown_tools: views(self.breakdown_tools@),
            stats: self.stats@,
        }
    }
}

/// A snapshot that holds nothing.
pub open spec fn empty_baseline() -> BaselineView {
    BaselineView {
        tactics: Seq::empty(),
        platforms: Seq::empty(),
        datasources: Seq::empty(),
        revoked_techniques: Seq::empty(),
        deprecated_techniques: Seq::empty(),
        breakdown_techniques: Seq::empty(),
        breakdown_subtechniques: Seq::empty(),
        uniques_techniques: Seq::empty(),
        uniques_subtechniques: Seq::empty(),
        adversaries: Seq::empty(),
        malware: Seq::empty(),
        tools: Seq::empty(),
        breakdown_adversaries: Seq::empty(),
        breakdown_malware: Seq::empty(),
        breakdown_tools: Seq::empty(),
        stats: no_statistics(),
    }
}

impl EnterpriseMatrixBreakdown {
    /// A snapshot that holds nothing.
    pub fn new() -> (r: Self)
        ensures
            r@ == empty_baseline(),
            well_formed(r@),
    {
        let r = EnterpriseMatrixBreakdown {
            tactics: Vec::new(),
            platforms: Vec::new(),
            datasources: Vec::new(),
            revoked_techniques: Vec::new(),
            deprecated_techniques: Vec::new(),
            breakdown_techniques: Vec::new(),
            breakdown_subtechniques: Vec::new(),
            uniques_techniques: Vec::new(),
            uniques_subtechniques: Vec::new(),
            adversaries: Vec::new(),
            malware: Vec::new(),
            tools: Vec::new(),
            breakdown_adversaries: Vec::new(),
            breakdown_malware: Vec::new(),
            breakdown_tools: Vec::new(),
            stats: EnterpriseMatrixStatistics::new(),
        };
        proof {
            let v = r@;
            let e = empty_baseline();
            assert(v.tactics =~= e.tactics);
            assert(v.platforms =~= e.platforms);
            assert(v.datasources =~= e.datasources);
            assert(v.revoked_techniques =~= e.revoked_techniques);
            assert(v.deprecated_techniques =~= e.deprecated_techniques);
            assert(v.breakdown_techniques =~= e.breakdown_techniques);
            assert(v.breakdown_subtechniques =~= e.breakdown_subtechniques);
            assert(v.uniques_techniques =~= e.uniques_techniques);
            assert(v.uniques_subtechniques =~= e.uniques_subtechniques);
            assert(v.adversaries =~= e.adversaries);
            assert(v.malware =~= e.malware);
            assert(v.tools =~= e.tools);
            assert(v.breakdown_adversaries =~= e.breakdown_adversaries);
            assert(v.breakdown_malware =~= e.breakdown_malware);
            assert(v.breakdown_tools =~= e.breakdown_tools);
            lemma_empty_is_well_formed();
        }
        r
    }
}

/// The working state of ingestion: the identifiers seen, and the snapshot in the making.
#[derive(Clone, Debug, PartialEq, Eq)]
pub struct EnterpriseMatrixParser {
    pub techniques: Vec<String>,
    pub subtechniques: Vec<String>,
    pub details: EnterpriseMatrixBreakdown,
}

/// What the working state holds, as mathematical values.
pub struct ParserView {
    pub techniques: Seq<Seq<char>>,
    pub subtechniques: Seq<Seq<char>>,
    pub details: BaselineView,
}

impl View for EnterpriseMatrixParser {
    type V = ParserView;

    open spec fn view(&self) -> ParserView {
        ParserView {
            techniques: views(self.techniques@),
            subtechniques: views(self.subtechniques@),
            details: self.details@,
        }
    }
}

/// Why an ingestion or a query came to nothing.
#[derive(Clone, Copy, Debug, PartialEq, Eq, Structural)]
pub enum MatrixError {
    /// The bundle object at `object` lacks the required `field`.
    MalformedInput { object: usize, field: MissingField },
    /// A query was made where no snapshot is loaded.
    MissingBaseline,
}

/// The record says that it has subtechniques exactly when it lists some, and its
/// identifier opens every subtechnique that it lists.
pub open spec fn consistent(t: TechniqueView) -> bool {
    &&& t.has_subtechniques == (t.subtechniques.len() > 0)
    &&& forall|k: int|
        0 <= k < t.subtechniques.len() ==> t.tid.is_prefix_of(#[trigger] t.subtechniques[k])
}

/// Every name is free of spaces and slashes.
pub open spec fn unspaced(names: Seq<Seq<char>>) -> bool {
    forall|k: int| 0 <= k < names.len() ==> hyphenated(#[trigger] names[k]) == names[k]
}

/// The identifiers of the records, in order.
pub open spec fn tids(rs: Seq<TechniqueView>) -> Seq<Seq<char>> {
    rs.map_values(|r: TechniqueView| r.tid)
}

/// What holds of every record of the active lists: it is consistent, neither revoked
/// nor deprecated, and its platforms and datasources are free of spaces and slashes.
pub open spec fn sound_record(t: TechniqueView) -> bool {
    &&& consistent(t)
    &&& !t.is_revoked
    &&& !t.is_deprecated
    &&& unspaced(t.platforms)
    &&& unspaced(t.datasources)
}

/// What holds of a snapshot that ingestion left: its sets are sorted, each value
/// once; its names are free of spaces and slashes; its lists of unique identifiers hold
/// the identifiers of its records; its records are sound, and the subtechniques that a
/// technique lists are known ones; no technique is both revoked and deprecated; and its
/// counters are those that its lists and records give.
pub open spec fn well_formed(b: BaselineView) -> bool {
    &&& sorted::<String>(b.tactics)
    &&& sorted::<String>(b.platforms)
    &&& sorted::<String>(b.datasources)
    &&& sorted::<(String, String)>(b.revoked_techniques)
    &&& sorted::<String>(b.uniques_techniques)
    &&& sorted::<String>(b.uniques_subtechniques)
    &&& unspaced(b.platforms)
    &&& unspaced(b.datasources)
    &&& same_items(b.uniques_techniques, tids(b.breakdown_techniques))
    &&& same_items(b.uniques_subtechniques, tids(b.breakdown_subtechniques))
    &&& forall|i: int|
        0 <= i < b.breakdown_techniques.len() ==> sound_record(#[trigger] b.breakdown_techniques[i])
    &&& forall|i: int|
        0 <= i < b.breakdown_subtechniques.len() ==> sound_record(
            #[trigger] b.breakdown_subtechniques[i],
        )
    &&& forall|i: int, k: int|
        0 <= i < b.breakdown_techniques.len() && 0 <= k
            < b.breakdown_techniques[i].subtechniques.len() ==> b.uniques_subtechniques.contains(
            #[trigger] b.breakdown_techniques[i].subtechniques[k],
        )
    &&& forall|x: (Seq<char>, Seq<char>)|
        !(b.revoked_techniques.contains(x) && #[trigger] b.deprecated_techniques.contains(x))
    &&& b.stats == stats_of(b)
}

/// The snapshot that holds nothing is well formed.
pub proof fn lemma_empty_is_well_formed()
    ensures
        well_formed(empty_baseline()),
{
    let e = empty_baseline();
    lemma_tally_of_none(SelectorView::Every);
    assert(tids(e.breakdown_techniques) =~= Seq::empty());
    assert(tids(e.breakdown_subtechniques) =~= Seq::empty());
    assert(stats_of(e) == no_statistics());
}

/// The counters that the snapshot's lists and records give, counted afresh; the
/// counts of malware, adversary and tool objects are kept as they are.
pub open spec fn stats_of(b: BaselineView) -> StatisticsView {
    StatisticsView {
        count_platforms: b.platforms.len(),
        count_tactics: b.tactics.len(),
        count_datasources: b.datasources.len(),
        count_revoked_techniques: b.revoked_techniques.len(),
        count_deprecated_techniques: b.deprecated_techniques.len(),
        count_active_uniq_techniques: b.uniques_techniques.len(),
        count_active_uniq_subtechniques: b.uniques_subtechniques.len(),
        count_active_total_techniques: tally(b.breakdown_techniques, SelectorView::Every),
        count_active_total_subtechniques: tally(b.breakdown_subtechniques, SelectorView::Every),
        count_malwares: b.stats.count_malwares,
        count_adversaries: b.stats.count_adversaries,
        count_tools: b.stats.count_tools,
        techniques_by_platform: category_rows(b.breakdown_techniques, true, known_platforms()),
        subtechniques_by_platform: category_rows(
            b.breakdown_subtechniques,
            true,
            known_platforms(),
        ),
        techniques_by_tactic: category_rows(b.breakdown_techniques, false, known_tactics()),
        subtechniques_by_tactic: category_rows(b.breakdown_subtechniques, false, known_tactics()),
    }
}

impl EnterpriseMatrixBreakdown {
    /// Counts everything afresh from the snapshot's lists and records.
    pub fn aggregate(&self) -> (r: EnterpriseMatrixStatistics)
        ensures
            r@ == stats_of(self@),
    {
        let platforms = platform_names();
        let tactics = tactic_names();
        EnterpriseMatrixStatistics {
            count_platforms: self.platforms.len(),
            count_tactics: self.tactics.len(),
            count_datasources: self.datasources.len(),
            count_revoked_techniques: self.revoked_techniques.len(),
            count_deprecated_techniques: self.deprecated_techniques.len(),
            count_active_uniq_techniques: self.uniques_techniques.len(),
            count_active_uniq_subtechniques: self.uniques_subtechniques.len(),
            count_active_total_techniques: count_pairs(
                &self.breakdown_techniques,
                &Selector::Every,
            ),
            count_active_total_subtechniques: count_pairs(
                &self.breakdown_subtechniques,
                &Selector::Every,
            ),
            count_malwares: self.stats.count_malwares,
            count_adversaries: self.stats.count_adversaries,
            count_tools: self.stats.count_tools,
            techniques_by_platform: count_categories(&self.breakdown_techniques, true, &platforms),
            subtechniques_by_platform: count_categories(
                &self.breakdown_subtechniques,
                true,
                &platforms,
            ),
            techniques_by_tactic: count_categories(&self.breakdown_techniques, false, &tactics),
            subtechniques_by_tactic: count_categories(
                &self.breakdown_subtechniques,
                false,
                &tactics,
            ),
        }
    }
}

impl EnterpriseMatrixParser {
    /// A working state that holds nothing.
    pub fn new() -> (r: EnterpriseMatrixParser)
        ensures
            r@ == (ParserView {
                techniques: Seq::empty(),
                subtechniques: Seq::empty(),
                details: empty_baseline(),
            }),
    {
        let r = EnterpriseMatrixParser {
            techniques: Vec::new(),
            subtechniques: Vec::new(),
            details: EnterpriseMatrixBreakdown::new(),
        };
        assert(r@.techniques =~= Seq::empty());
        assert(r@.subtechniques =~= Seq::empty());
        r
    }

    /// The share of `actual` in `total` as a text in whole percent.
    pub fn get_percentage(&self, total: usize, actual: usize) -> (r: String)
        ensures
            r@ == percent_text(total as nat, actual as nat),
    {
        get_percentage(total, actual)
    }

    /// Counts afresh the distinct pairs of identifier and tactic among the technique
    /// records and among the subtechnique records.
    pub fn extract_stats_techniques_by_totals(&mut self)
        ensures
            final(self)@ == (ParserView {
                details: BaselineView {
                    stats: StatisticsView {
                        count_active_total_techniques: tally(
                            old(self)@.details.breakdown_techniques,
                            SelectorView::Every,
                        ),
                        count_active_total_subtechniques: tally(
                            old(self)@.details.breakdown_subtechniques,
                            SelectorView::Every,
                        ),
                        ..old(self)@.details.stats
                    },
                    ..old(self)@.details
                },
                ..old(self)@
            }),
    {
        self.details.stats.count_active_total_techniques = count_pairs(
            &self.details.breakdown_techniques,
            &Selector::Every,
        );
        self.details.stats.count_active_total_subtechniques = count_pairs(
            &self.details.breakdown_subtechniques,
            &Selector::Every,
        );
    }

    /// Counts afresh, for each of the nine platforms, the records on it: the
    /// subtechnique records where `wants_subtechniques` is set, else the technique records.
    pub fn extract_stats_techniques_by_platforms(&mut self, wants_subtechniques: bool)
        ensures
            wants_subtechniques ==> final(self)@ == (ParserView {
                details: BaselineView {
                    stats: StatisticsView {
                        subtechniques_by_platform: category_rows(
                            old(self)@.details.breakdown_subtechniques,
                            true,
                            known_platforms(),
                        ),
                        ..old(self)@.details.stats
                    },
                    ..old(self)@.details
                },
                ..old(self)@
            }),
            !wants_subtechniques ==> final(self)@ == (ParserView {
                details: BaselineView {
                    stats: StatisticsView {
                        techniques_by_platform: category_rows(
                            old(self)@.details.breakdown_techniques,
                            true,
                            known_platforms(),
                        ),
                        ..old(self)@.details.stats
                    },
                    ..old(self)@.details
                },
                ..old(self)@
            }),
    {
        let names = platform_names();
        if wants_subtechniques {
            self.details.stats.subtechniques_by_platform = count_categories(
                &self.details.breakdown_subtechniques,
                true,
                &names,
            );
        } else {
            self.details.stats.techniques_by_platform = count_categories(
                &self.details.breakdown_techniques,
                true,
                &names,
            );
        }
    }

    /// Counts afresh, for each of the twelve kill-chain tactics, the records under it: the
    /// subtechnique records where `wants_subtechniques` is set, else the technique records.
    pub fn extract_stats_techniques_by_killchain(&mut self, wants_subtechniques: bool)
        ensures
            wants_subtechniques ==> final(self)@ == (ParserView {
                details: BaselineView {
                    stats: StatisticsView {
                        subtechniques_by_tactic: category_rows(
                            old(self)@.details.breakdown_subtechniques,
                            false,
                            known_tactics(),
                        ),
                        ..old(self)@.details.stats
                    },
                    ..old(self)@.details
                },
                ..old(self)@
            }),
            !wants_subtechniques ==> final(self)@ == (ParserView {
                details: BaselineView {
                    stats: StatisticsView {
                        techniques_by_tactic: category_rows(
                            old(self)@.details.breakdown_techniques,
                            false,
                            known_tactics(),
                        ),
                        ..old(self)@.details.stats
                    },
                    ..old(self)@.details
                },
                ..old(self)@
            }),
    {
        let names = tactic_names();
        if wants_subtechniques {
            self.details.stats.subtechniques_by_tactic = count_categories(
                &self.details.breakdown_subtechniques,
                false,
                &names,
            );
        } else {
            self.details.stats.techniques_by_tactic = count_categories(
                &self.details.breakdown_techniques,
                false,
                &names,
            );
        }
    }
}

} // verus!
