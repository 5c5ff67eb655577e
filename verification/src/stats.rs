use vstd::prelude::*;
use crate::enterprise::{EnterpriseTechnique, TechniqueView};
use crate::lex::views;
use crate::scan::push_char;
use crate::text::same_text;

verus! {

/// The character of a decimal digit.
pub open spec fn digit(d: int) -> char {
    if d == 0 {
        '0'
    } else if d == 1 {
        '1'
    } else if d == 2 {
        '2'
    } else if d == 3 {
        '3'
    } else if d == 4 {
        '4'
    } else if d == 5 {
        '5'
    } else if d == 6 {
        '6'
    } else if d == 7 {
        '7'
    } else if d == 8 {
        '8'
    } else {
        '9'
    }
}

/// The decimal numeral of `n`, without leading zeros.
pub open spec fn decimal(n: nat) -> Seq<char>
    decreases n,
{
    if n < 10 {
        seq![digit(n as int)]
    } else {
        decimal(n / 10).push(digit((n % 10) as int))
    }
}

/// The share of `actual` in `total` in whole percent, rounded down; 0 where `total` is 0.
pub open spec fn percent_of(total: nat, actual: nat) -> nat {
    if total == 0 {
        0
    } else {
        (100 * actual) / total
    }
}

/// The text of a share: its whole percent and a percent sign.
pub open spec fn percent_text(total: nat, actual: nat) -> Seq<char> {
    decimal(percent_of(total, actual)).push('%')
}

/// The character of a decimal digit.
fn digit_char(d: u128) -> (c: char)
    requires
        d < 10,
    ensures
        c == digit(d as int),
{
    if d == 0 {
        '0'
    } else if d == 1 {
        '1'
    } else if d == 2 {
        '2'
    } else if d == 3 {
        '3'
    } else if d == 4 {
        '4'
    } else if d == 5 {
        '5'
    } else if d == 6 {
        '6'
    } else if d == 7 {
        '7'
    } else if d == 8 {
        '8'
    } else {
        '9'
    }
}

/// Appends the decimal numeral of `n` to `out`.
fn push_decimal(out: &mut String, n: u128)
    ensures
        final(out)@ == old(out)@ + decimal(n as nat),
    decreases n,
{
    if n >= 10 {
        push_decimal(out, n / 10);
    }
    push_char(out, digit_char(n % 10));
    proof {
        if n >= 10 {
            assert(final(out)@ =~= old(out)@ + decimal(n as nat));
        } else {
            assert(final(out)@ =~= old(out)@ + decimal(n as nat));
        }
    }
}

/// The share of `actual` in `total` as a text in whole percent.
pub fn get_percentage(total: usize, actual: usize) -> (r: String)
    ensures
        r@ == percent_text(total as nat, actual as nat),
{
    let mut r = String::new();
    let share: u128 = if total == 0 {
        0
    } else {
        (100u128 * (actual as u128)) / (total as u128)
    };
    push_decimal(&mut r, share);
    push_char(&mut r, '%');
    assert(r@ =~= percent_text(total as nat, actual as nat));
    r
}

/// Which records a count takes in.
#[derive(Clone, Debug, PartialEq, Eq)]
pub enum Selector {
    /// Every record.
    Every,
    /// The records whose platform set holds this platform.
    Platform(String),
    /// The records under this tactic.
    Tactic(String),
}

/// What a selector holds, as mathematical values.
pub enum SelectorView {
    Every,
    Platform(Seq<char>),
    Tactic(Seq<char>),
}

impl View for Selector {
    type V = SelectorView;

    open spec fn view(&self) -> SelectorView {
        match self {
            Selector::Every => SelectorView::Every,
            Selector::Platform(p) => SelectorView::Platform(p@),
            Selector::Tactic(t) => SelectorView::Tactic(t@),
        }
    }
}

/// Whether the selector takes the record in.
pub open spec fn selects(sel: SelectorView, t: TechniqueView) -> bool {
    match sel {
        SelectorView::Every => true,
        SelectorView::Platform(p) => t.platforms.contains(p),
        SelectorView::Tactic(k) => t.tactic == k,
    }
}

/// The identifier of a record with its tactic.
pub open spec fn pair_of(t: TechniqueView) -> (Seq<char>, Seq<char>) {
    (t.tid, t.tactic)
}

/// The distinct pairs of identifier and tactic among the selected records.
pub open spec fn pairs(rs: Seq<TechniqueView>, sel: SelectorView) -> Set<(Seq<char>, Seq<char>)> {
    Set::new(
        |p: (Seq<char>, Seq<char>)|
            exists|i: int|
                0 <= i < rs.len() && selects(sel, #[trigger] rs[i]) && pair_of(rs[i]) == p,
    )
}

/// How many distinct pairs of identifier and tactic the selected records hold.
pub open spec fn tally(rs: Seq<TechniqueView>, sel: SelectorView) -> nat {
    pairs(rs, sel).len()
}

/// The distinct identifiers among the records.
pub open spec fn identifiers(rs: Seq<TechniqueView>) -> Set<Seq<char>> {
    Set::new(|id: Seq<char>| exists|i: int| 0 <= i < rs.len() && (#[trigger] rs[i]).tid == id)
}

/// Taking one more record in adds its pair where the selector takes it, and nothing else.
pub proof fn lemma_pairs_step(rs: Seq<TechniqueView>, sel: SelectorView, n: int)
    requires
        0 <= n < rs.len(),
    ensures
        pairs(rs.take(n + 1), sel) == if selects(sel, rs[n]) {
            pairs(rs.take(n), sel).insert(pair_of(rs[n]))
        } else {
            pairs(rs.take(n), sel)
        },
{
    let more = rs.take(n + 1);
    let less = rs.take(n);
    let grown = if selects(sel, rs[n]) {
        pairs(less, sel).insert(pair_of(rs[n]))
    } else {
        pairs(less, sel)
    };
    assert forall|p: (Seq<char>, Seq<char>)| pairs(more, sel).contains(p) implies grown.contains(
        p,
    ) by {
        let i = choose|i: int| 0 <= i < more.len() && selects(sel, #[trigger] more[i]) && pair_of(
            more[i],
        ) == p;
        if i < n {
            assert(less[i] == more[i]);
        }
    }
    assert forall|p: (Seq<char>, Seq<char>)| grown.contains(p) implies pairs(more, sel).contains(
        p,
    ) by {
        if pairs(less, sel).contains(p) {
            let i = choose|i: int| 0 <= i < less.len() && selects(sel, #[trigger] less[i])
                && pair_of(less[i]) == p;
            assert(more[i] == less[i]);
        } else {
            assert(more[n] == rs[n]);
        }
    }
    assert(pairs(more, sel) =~= grown);
}

/// The pairs of finitely many records are finitely many, and no more than the records.
pub proof fn lemma_pairs_finite(rs: Seq<TechniqueView>, sel: SelectorView, n: int)
    requires
        0 <= n <= rs.len(),
    ensures
        pairs(rs.take(n), sel).finite(),
        pairs(rs.take(n), sel).len() <= n,
    decreases n,
{
    if n == 0 {
        assert(pairs(rs.take(0), sel) =~= Set::empty());
    } else {
        lemma_pairs_finite(rs, sel, n - 1);
        lemma_pairs_step(rs, sel, n - 1);
    }
}

/// Whether the selector takes the record in.
pub fn selected(t: &EnterpriseTechnique, sel: &Selector) -> (r: bool)
    ensures
        r == selects(sel@, t@),
{
    match sel {
        Selector::Every => true,
        Selector::Platform(p) => {
            let mut i: usize = 0;
            while i < t.platforms.len()
                invariant
                    i <= t.platforms.len(),
                    sel@ == SelectorView::Platform(p@),
                    forall|j: int| 0 <= j < i ==> views(t.platforms@)[j] != p@,
                decreases t.platforms.len() - i,
            {
                if same_text(t.platforms[i].as_str(), p.as_str()) {
                    assert(t@.platforms[i as int] == p@);
                    assert(t@.platforms.contains(p@));
                    return true;
                }
                i = i + 1;
            }
            false
        },
        Selector::Tactic(k) => same_text(t.tactic.as_str(), k.as_str()),
    }
}

/// Whether a selected record before position `n` holds the pair of the record at `n`.
fn seen_before(records: &Vec<EnterpriseTechnique>, sel: &Selector, n: usize) -> (r: bool)
    requires
        n < records.len(),
    ensures
        r == pairs(views(records@).take(n as int), sel@).contains(
            pair_of(views(records@)[n as int]),
        ),
{
    let ghost rs = views(records@);
    let ghost less = rs.take(n as int);
    let mut j: usize = 0;
    while j < n
        invariant
            j <= n,
            n < records.len(),
            rs == views(records@),
            less == rs.take(n as int),
            forall|i: int| 0 <= i < j ==> !(selects(sel@, #[trigger] less[i]) && pair_of(less[i])
                == pair_of(rs[n as int])),
        decreases n - j,
    {
        if selected(&records[j], sel) && same_text(
            records[j].tid.as_str(),
            records[n].tid.as_str(),
        ) && same_text(records[j].tactic.as_str(), records[n].tactic.as_str()) {
            assert(less[j as int] == rs[j as int]);
            assert(selects(sel@, less[j as int]) && pair_of(less[j as int]) == pair_of(
                rs[n as int],
            ));
            return true;
        }
        assert(less[j as int] == rs[j as int]);
        j = j + 1;
    }
    false
}

/// Counts the distinct pairs of identifier and tactic among the selected records.
pub fn count_pairs(records: &Vec<EnterpriseTechnique>, sel: &Selector) -> (n: usize)
    ensures
        n == tally(views(records@), sel@),
{
    let ghost rs = views(records@);
    let mut n: usize = 0;
    let mut i: usize = 0;
    proof {
        lemma_pairs_finite(rs, sel@, 0);
    }
    while i < records.len()
        invariant
            i <= records.len(),
            rs == views(records@),
            n <= i,
            n == pairs(rs.take(i as int), sel@).len(),
            pairs(rs.take(i as int), sel@).finite(),
        decreases records.len() - i,
    {
        proof {
            lemma_pairs_step(rs, sel@, i as int);
            lemma_pairs_finite(rs, sel@, i + 1);
        }
        if selected(&records[i], sel) && !seen_before(records, sel, i) {
            n = n + 1;
        }
        i = i + 1;
    }
    assert(rs.take(i as int) =~= rs);
    n
}

/// The nine platform categories that counts are kept for.
pub open spec fn known_platforms() -> Seq<Seq<char>> {
    seq![
        "aws"@,
        "azure"@,
        "azure-ad"@,
        "gcp"@,
        "linux"@,
        "macos"@,
        "office-365"@,
        "saas"@,
        "windows"@,
    ]
}

/// The twelve kill-chain categories that counts are kept for.
pub open spec fn known_tactics() -> Seq<Seq<char>> {
    seq![
        "initial-access"@,
        "execution"@,
        "persistence"@,
        "privilege-escalation"@,
        "defense-evasion"@,
        "credential-access"@,
        "discovery"@,
        "lateral-movement"@,
        "collection"@,
        "command-and-control"@,
        "exfiltration"@,
        "impact"@,
    ]
}

/// The names of the nine platform categories.
pub fn platform_names() -> (r: Vec<String>)
    ensures
        views(r@) == known_platforms(),
{
    let mut r: Vec<String> = Vec::new();
    r.push("aws".to_owned());
    r.push("azure".to_owned());
    r.push("azure-ad".to_owned());
    r.push("gcp".to_owned());
    r.push("linux".to_owned());
    r.push("macos".to_owned());
    r.push("office-365".to_owned());
    r.push("saas".to_owned());
    r.push("windows".to_owned());
    assert(views(r@) =~= known_platforms());
    r
}

/// The names of the twelve kill-chain categories.
pub fn tactic_names() -> (r: Vec<String>)
    ensures
        views(r@) == known_tactics(),
{
    let mut r: Vec<String> = Vec::new();
    r.push("initial-access".to_owned());
    r.push("execution".to_owned());
    r.push("persistence".to_owned());
    r.push("privilege-escalation".to_owned());
    r.push("defense-evasion".to_owned());
    r.push("credential-access".to_owned());
    r.push("discovery".to_owned());
    r.push("lateral-movement".to_owned());
    r.push("collection".to_owned());
    r.push("command-and-control".to_owned());
    r.push("exfiltration".to_owned());
    r.push("impact".to_owned());
    assert(views(r@) =~= known_tactics());
    r
}

/// The count kept for one category, with its share of all pairs.
#[derive(Clone, Debug, PartialEq, Eq)]
pub struct CategoryCount {
    pub name: String,
    pub count: usize,
    pub percent: String,
}

/// What a count of a category holds, as mathematical values.
pub struct CategoryCountView {
    pub name: Seq<char>,
    pub count: nat,
    pub percent: Seq<char>,
}

impl View for CategoryCount {
    type V = CategoryCountView;

    open spec fn view(&self) -> CategoryCountView {
        CategoryCountView { name: self.name@, count: self.count as nat, percent: self.percent@ }
    }
}

/// The selector of a category: a platform, or else a tactic.
pub open spec fn category(by_platform: bool, name: Seq<char>) -> SelectorView {
    if by_platform {
        SelectorView::Platform(name)
    } else {
        SelectorView::Tactic(name)
    }
}

/// The count of a category among the records, and its share of all their pairs.
pub open spec fn category_row(
    rs: Seq<TechniqueView>,
    by_platform: bool,
    name: Seq<char>,
) -> CategoryCountView {
    CategoryCountView {
        name: name,
        count: tally(rs, category(by_platform, name)),
        percent: percent_text(
            tally(rs, SelectorView::Every),
            tally(rs, category(by_platform, name)),
        ),
    }
}

/// The counts of the named categories among the records, name by name.
pub open spec fn category_rows(
    rs: Seq<TechniqueView>,
    by_platform: bool,
    names: Seq<Seq<char>>,
) -> Seq<CategoryCountView> {
    Seq::new(names.len(), |i: int| category_row(rs, by_platform, names[i]))
}

/// Counts the records of each named category afresh.
pub fn count_categories(
    records: &Vec<EnterpriseTechnique>,
    by_platform: bool,
    names: &Vec<String>,
) -> (rows: Vec<CategoryCount>)
    ensures
        views(rows@) == category_rows(views(records@), by_platform, views(names@)),
{
    let ghost rs = views(records@);
    let ghost want = category_rows(rs, by_platform, views(names@));
    let total = count_pairs(records, &Selector::Every);
    let mut rows: Vec<CategoryCount> = Vec::new();
    let mut i: usize = 0;
    while i < names.len()
        invariant
            i <= names.len(),
            rs == views(records@),
            want == category_rows(rs, by_platform, views(names@)),
            total == tally(rs, SelectorView::Every),
            views(rows@) == want.take(i as int),
        decreases names.len() - i,
    {
        let ghost before = views(rows@);
        let sel = if by_platform {
            Selector::Platform(names[i].clone())
        } else {
            Selector::Tactic(names[i].clone())
        };
        let count = count_pairs(records, &sel);
        let row = CategoryCount {
            name: names[i].clone(),
            count: count,
            percent: get_percentage(total, count),
        };
        assert(row@ == want[i as int]);
        rows.push(row);
        assert(views(rows@) =~= before.push(want[i as int]));
        i = i + 1;
        assert(views(rows@) =~= want.take(i as int));
    }
    assert(want.take(i as int) =~= want);
    rows
}

/// The counters of a baseline.
#[derive(Clone, Debug, PartialEq, Eq)]
pub struct EnterpriseMatrixStatistics {
    pub count_platforms: usize,
    pub count_tactics: usize,
    pub count_datasources: usize,
    pub count_revoked_techniques: usize,
    pub count_deprecated_techniques: usize,
    pub count_active_uniq_techniques: usize,
    pub count_active_uniq_subtechniques: usize,
    pub count_active_total_techniques: usize,
    pub count_active_total_subtechniques: usize,
    pub count_malwares: usize,
    pub count_adversaries: usize,
    pub count_tools: usize,
    pub techniques_by_platform: Vec<CategoryCount>,
    pub subtechniques_by_platform: Vec<CategoryCount>,
    pub techniques_by_tactic: Vec<CategoryCount>,
    pub subtechniques_by_tactic: Vec<CategoryCount>,
}

/// What the counters hold, as mathematical values.
pub struct StatisticsView {
    pub count_platforms: nat,
    pub count_tactics: nat,
    pub count_datasources: nat,
    pub count_revoked_techniques: nat,
    pub count_deprecated_techniques: nat,
    pub count_active_uniq_techniques: nat,
    pub count_active_uniq_subtechniques: nat,
    pub count_active_total_techniques: nat,
    pub count_active_total_subtechniques: nat,
    pub count_malwares: nat,
    pub count_adversaries: nat,
    pub count_tools: nat,
    pub techniques_by_platform: Seq<CategoryCountView>,
    pub subtechniques_by_platform: Seq<CategoryCountView>,
    pub techniques_by_tactic: Seq<CategoryCountView>,
    pub subtechniques_by_tactic: Seq<CategoryCountView>,
}

impl View for EnterpriseMatrixStatistics {
    type V = StatisticsView;

    open spec fn view(&self) -> StatisticsView {
        StatisticsView {
            count_platforms: self.count_platforms as nat,
            count_tactics: self.count_tactics as nat,
            count_datasources: self.count_datasources as nat,
            count_revoked_techniques: self.count_revoked_techniques as nat,
            count_deprecated_techniques: self.count_deprecated_techniques as nat,
            count_active_uniq_techniques: self.count_active_uniq_techniques as nat,
            count_active_uniq_subtechniques: self.count_active_uniq_subtechniques as nat,
            count_active_total_techniques: self.count_active_total_techniques as nat,
            count_active_total_subtechniques: self.count_active_total_subtechniques as nat,
            count_malwares: self.count_malwares as nat,
            count_adversaries: self.count_adversaries as nat,
            count_tools: self.count_tools as nat,
            techniques_by_platform: views(self.techniques_by_platform@),
            subtechniques_by_platform: views(self.subtechniques_by_platform@),
            techniques_by_tactic: views(self.techniques_by_tactic@),
            subtechniques_by_tactic: views(self.subtechniques_by_tactic@),
        }
    }
}

/// Counters that are all zero: what no records at all give.
pub open spec fn no_statistics() -> StatisticsView {
    StatisticsView {
        count_platforms: 0,
        count_tactics: 0,
        count_datasources: 0,
        count_revoked_techniques: 0,
        count_deprecated_techniques: 0,
        count_active_uniq_techniques: 0,
        count_active_uniq_subtechniques: 0,
        count_active_total_techniques: 0,
        count_active_total_subtechniques: 0,
        count_malwares: 0,
        count_adversaries: 0,
        count_tools: 0,
        techniques_by_platform: category_rows(Seq::empty(), true, known_platforms()),
        subtechniques_by_platform: category_rows(Seq::empty(), true, known_platforms()),
        techniques_by_tactic: category_rows(Seq::empty(), false, known_tactics()),
        subtechniques_by_tactic: category_rows(Seq::empty(), false, known_tactics()),
    }
}

/// No records give no pairs.
pub proof fn lemma_tally_of_none(sel: SelectorView)
    ensures
        tally(Seq::empty(), sel) == 0,
{
    assert(pairs(Seq::empty(), sel) =~= Set::empty());
}

/// Copies the counts of categories.
pub fn copy_rows(rows: &Vec<CategoryCount>) -> (r: Vec<CategoryCount>)
    ensures
        views(r@) == views(rows@),
{
    let mut r: Vec<CategoryCount> = Vec::new();
    let mut i: usize = 0;
    while i < rows.len()
        invariant
            i <= rows.len(),
            views(r@) == views(rows@).take(i as int),
        decreases rows.len() - i,
    {
        let ghost before = views(r@);
        r.push(
            CategoryCount {
                name: rows[i].name.clone(),
                count: rows[i].count,
                percent: rows[i].percent.clone(),
            },
        );
        assert(views(r@) =~= before.push(rows[i as int]@));
        i = i + 1;
        assert(views(r@) =~= views(rows@).take(i as int));
    }
    assert(views(rows@).take(i as int) =~= views(rows@));
    r
}

impl EnterpriseMatrixStatistics {
    /// A copy that holds the same counters.
    pub fn copy(&self) -> (r: Self)
        ensures
            r@ == self@,
    {
        EnterpriseMatrixStatistics {
            count_platforms: self.count_platforms,
            count_tactics: self.count_tactics,
            count_datasources: self.count_datasources,
            count_revoked_techniques: self.count_revoked_techniques,
            count_deprecated_techniques: self.count_deprecated_techniques,
            count_active_uniq_techniques: self.count_active_uniq_techniques,
            count_active_uniq_subtechniques: self.count_active_uniq_subtechniques,
            count_active_total_techniques: self.count_active_total_techniques,
            count_active_total_subtechniques: self.count_active_total_subtechniques,
            count_malwares: self.count_malwares,
            count_adversaries: self.count_adversaries,
            count_tools: self.count_tools,
            techniques_by_platform: copy_rows(&self.techniques_by_platform),
            subtechniques_by_platform: copy_rows(&self.subtechniques_by_platform),
            techniques_by_tactic: copy_rows(&self.techniques_by_tactic),
            subtechniques_by_tactic: copy_rows(&self.subtechniques_by_tactic),
        }
    }

    /// Counters that are all zero.
    pub fn new() -> (r: Self)
        ensures
            r@ == no_statistics(),
    {
        let none: Vec<EnterpriseTechnique> = Vec::new();
        assert(views(none@) =~= Seq::empty());
        let platforms = platform_names();
        let tactics = tactic_names();
        EnterpriseMatrixStatistics {
            count_platforms: 0,
            count_tactics: 0,
            count_datasources: 0,
            count_revoked_techniques: 0,
            count_deprecated_techniques: 0,
            count_active_uniq_techniques: 0,
            count_active_uniq_subtechniques: 0,
            count_active_total_techniques: 0,
            count_active_total_subtechniques: 0,
            count_malwares: 0,
            count_adversaries: 0,
            count_tools: 0,
            techniques_by_platform: count_categories(&none, true, &platforms),
            subtechniques_by_platform: count_categories(&none, true, &platforms),
            techniques_by_tactic: count_categories(&none, false, &tactics),
            subtechniques_by_tactic: count_categories(&none, false, &tactics),
        }
    }
}

} // verus!
