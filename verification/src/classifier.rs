use vstd::prelude::*;
use crate::bundle::{subtechnique_id_at, subtechnique_shape_at, technique_id_at, technique_shape_at};
use crate::keyed::copy_all;
use crate::lex::views;
use crate::normalizer::{lowercase, lowercase_of, trim_trailing, trimmed_end};
use crate::parser::{BaselineView, EnterpriseMatrixBreakdown};
use crate::scan::{contains, contains_text, has_char, split, split_on};
use crate::text::{chars_of, same_text};

verus! {

/// What a search term asks for. Each category has a fixed code of its own.
#[derive(Clone, Copy, Debug, PartialEq, Eq, Structural)]
pub enum Category {
    /// A technique identifier: `t` and four digits.
    TechniqueId,
    /// A subtechnique identifier: a technique identifier, a dot and three digits.
    SubtechniqueId,
    /// A text that occurs in the name of a known technique.
    TechniqueName,
    /// The reserved word `revoked`.
    Revoked,
    /// The reserved word `stats`.
    Stats,
    /// The reserved word `nosub`.
    NoSubtechniques,
    /// The reserved word `techniques`.
    Techniques,
    /// The reserved word `subtechniques`.
    Subtechniques,
    /// The reserved word `datasources`.
    Datasources,
    /// The reserved word `platforms`.
    Platforms,
    /// The reserved word `nodatasources`.
    NoDatasources,
    /// The reserved word `tactics`.
    Tactics,
    /// The reserved word `deprecated`.
    Deprecated,
    /// The reserved word `initial-access`.
    InitialAccess,
    /// The reserved word `execution`.
    Execution,
    /// The reserved word `persistence`.
    Persistence,
    /// The reserved word `privilege-escalation`.
    PrivilegeEscalation,
    /// The reserved word `defense-evasion`.
    DefenseEvasion,
    /// The reserved word `credential-access`.
    CredentialAccess,
    /// The reserved word `discovery`.
    Discovery,
    /// The reserved word `lateral-movement`.
    LateralMovement,
    /// The reserved word `collection`.
    Collection,
    /// The reserved word `command-and-control`.
    CommandAndControl,
    /// The reserved word `exfiltration`.
    Exfiltration,
    /// The reserved word `impact`.
    Impact,
    /// The reserved word `aws`.
    Aws,
    /// The reserved word `azure`.
    Azure,
    /// The reserved word `azure-ad`.
    AzureAd,
    /// The reserved word `gcp`.
    Gcp,
    /// The reserved word `linux`.
    Linux,
    /// The reserved word `macos`.
    Macos,
    /// The reserved word `office-365`.
    Office365,
    /// The reserved word `saas`.
    Saas,
    /// The reserved word `windows`.
    Windows,
    /// The reserved word `overlap`.
    Overlap,
    /// The reserved word `xref:datasources:platforms`.
    XrefDatasourcesPlatforms,
    /// The reserved word `xref:datasources:tactics`.
    XrefDatasourcesTactics,
    /// The name of a known datasource, alone or after a known platform and a colon.
    Datasource,
    /// The name of a known adversary.
    Adversary,
    /// The name of a known piece of malware.
    Malware,
    /// The name of a known tool.
    Tool,
    /// The reserved word `adversaries`.
    Adversaries,
    /// The reserved word `malware`.
    AllMalware,
    /// The reserved word `tools`.
    Tools,
}

impl Category {
    /// The fixed code of the category.
    pub open spec fn code_of(self) -> nat {
        match self {
            Category::TechniqueId => 0,
            Category::SubtechniqueId => 1,
            Category::TechniqueName => 2,
            Category::Revoked => 3,
            Category::Stats => 4,
            Category::NoSubtechniques => 5,
            Category::Techniques => 6,
            Category::Subtechniques => 7,
            Category::Datasources => 8,
            Category::Platforms => 9,
            Category::NoDatasources => 10,
            Category::Tactics => 11,
            Category::Deprecated => 12,
            Category::InitialAccess => 13,
            Category::Execution => 14,
            Category::Persistence => 15,
            Category::PrivilegeEscalation => 16,
            Category::DefenseEvasion => 17,
            Category::CredentialAccess => 18,
            Category::Discovery => 19,
            Category::LateralMovement => 20,
            Category::Collection => 21,
            Category::CommandAndControl => 22,
            Category::Exfiltration => 23,
            Category::Impact => 24,
            Category::Aws => 25,
            Category::Azure => 26,
            Category::AzureAd => 27,
            Category::Gcp => 28,
            Category::Linux => 29,
            Category::Macos => 30,
            Category::Office365 => 31,
            Category::Saas => 32,
            Category::Windows => 33,
            Category::Overlap => 34,
            Category::XrefDatasourcesPlatforms => 35,
            Category::XrefDatasourcesTactics => 36,
            Category::Datasource => 37,
            Category::Adversary => 38,
            Category::Malware => 39,
            Category::Tool => 40,
            Category::Adversaries => 41,
            Category::AllMalware => 42,
            Category::Tools => 43,
        }
    }

    /// The fixed code of the category.
    pub fn code(&self) -> (c: usize)
        ensures
            c == self.code_of(),
            c < 44,
    {
        match self {
            Category::TechniqueId => 0,
            Category::SubtechniqueId => 1,
            Category::TechniqueName => 2,
            Category::Revoked => 3,
            Category::Stats => 4,
            Category::NoSubtechniques => 5,
            Category::Techniques => 6,
            Category::Subtechniques => 7,
            Category::Datasources => 8,
            Category::Platforms => 9,
            Category::NoDatasources => 10,
            Category::Tactics => 11,
            Category::Deprecated => 12,
            Category::InitialAccess => 13,
            Category::Execution => 14,
            Category::Persistence => 15,
            Category::PrivilegeEscalation => 16,
            Category::DefenseEvasion => 17,
            Category::CredentialAccess => 18,
            Category::Discovery => 19,
            Category::LateralMovement => 20,
            Category::Collection => 21,
            Category::CommandAndControl => 22,
            Category::Exfiltration => 23,
            Category::Impact => 24,
            Category::Aws => 25,
            Category::Azure => 26,
            Category::AzureAd => 27,
            Category::Gcp => 28,
            Category::Linux => 29,
            Category::Macos => 30,
            Category::Office365 => 31,
            Category::Saas => 32,
            Category::Windows => 33,
            Category::Overlap => 34,
            Category::XrefDatasourcesPlatforms => 35,
            Category::XrefDatasourcesTactics => 36,
            Category::Datasource => 37,
            Category::Adversary => 38,
            Category::Malware => 39,
            Category::Tool => 40,
            Category::Adversaries => 41,
            Category::AllMalware => 42,
            Category::Tools => 43,
        }
    }
}

/// The category of a reserved word; `None` for any other text.
pub open spec fn keyword_of(term: Seq<char>) -> Option<Category> {
    if term == "revoked"@ {
        Some(Category::Revoked)
    } else if term == "stats"@ {
        Some(Category::Stats)
    } else if term == "nosub"@ {
        Some(Category::NoSubtechniques)
    } else if term == "techniques"@ {
        Some(Category::Techniques)
    } else if term == "subtechniques"@ {
        Some(Category::Subtechniques)
    } else if term == "datasources"@ {
        Some(Category::Datasources)
    } else if term == "platforms"@ {
        Some(Category::Platforms)
    } else if term == "nodatasources"@ {
        Some(Category::NoDatasources)
    } else if term == "tactics"@ {
        Some(Category::Tactics)
    } else if term == "deprecated"@ {
        Some(Category::Deprecated)
    } else if term == "initial-access"@ {
        Some(Category::InitialAccess)
    } else if term == "execution"@ {
        Some(Category::Execution)
    } else if term == "persistence"@ {
        Some(Category::Persistence)
    } else if term == "privilege-escalation"@ {
        Some(Category::PrivilegeEscalation)
    } else if term == "defense-evasion"@ {
        Some(Category::DefenseEvasion)
    } else if term == "credential-access"@ {
        Some(Category::CredentialAccess)
    } else if term == "discovery"@ {
        Some(Category::Discovery)
    } else if term == "lateral-movement"@ {
        Some(Category::LateralMovement)
    } else if term == "collection"@ {
        Some(Category::Collection)
    } else if term == "command-and-control"@ {
        Some(Category::CommandAndControl)
    } else if term == "exfiltration"@ {
        Some(Category::Exfiltration)
    } else if term == "impact"@ {
        Some(Category::Impact)
    } else if term == "aws"@ {
        Some(Category::Aws)
    } else if term == "azure"@ {
        Some(Category::Azure)
    } else if term == "azure-ad"@ {
        Some(Category::AzureAd)
    } else if term == "gcp"@ {
        Some(Category::Gcp)
    } else if term == "linux"@ {
        Some(Category::Linux)
    } else if term == "macos"@ {
        Some(Category::Macos)
    } else if term == "office-365"@ {
        Some(Category::Office365)
    } else if term == "saas"@ {
        Some(Category::Saas)
    } else if term == "windows"@ {
        Some(Category::Windows)
    } else if term == "overlap"@ {
        Some(Category::Overlap)
    } else if term == "xref:datasources:platforms"@ {
        Some(Category::XrefDatasourcesPlatforms)
    } else if term == "xref:datasources:tactics"@ {
        Some(Category::XrefDatasourcesTactics)
    } else if term == "adversaries"@ {
        Some(Category::Adversaries)
    } else if term == "malware"@ {
        Some(Category::AllMalware)
    } else if term == "tools"@ {
        Some(Category::Tools)
    } else {
        None
    }
}

/// The category of a reserved word; `None` for any other text.
pub fn keyword(term: &str) -> (r: Option<Category>)
    ensures
        r == keyword_of(term@),
{
    if same_text(term, "revoked") {
        Some(Category::Revoked)
    } else if same_text(term, "stats") {
        Some(Category::Stats)
    } else if same_text(term, "nosub") {
        Some(Category::NoSubtechniques)
    } else if same_text(term, "techniques") {
        Some(Category::Techniques)
    } else if same_text(term, "subtechniques") {
        Some(Category::Subtechniques)
    } else if same_text(term, "datasources") {
        Some(Category::Datasources)
    } else if same_text(term, "platforms") {
        Some(Category::Platforms)
    } else if same_text(term, "nodatasources") {
        Some(Category::NoDatasources)
    } else if same_text(term, "tactics") {
        Some(Category::Tactics)
    } else if same_text(term, "deprecated") {
        Some(Category::Deprecated)
    } else if same_text(term, "initial-access") {
        Some(Category::InitialAccess)
    } else if same_text(term, "execution") {
        Some(Category::Execution)
    } else if same_text(term, "persistence") {
        Some(Category::Persistence)
    } else if same_text(term, "privilege-escalation") {
        Some(Category::PrivilegeEscalation)
    } else if same_text(term, "defense-evasion") {
        Some(Category::DefenseEvasion)
    } else if same_text(term, "credential-access") {
        Some(Category::CredentialAccess)
    } else if same_text(term, "discovery") {
        Some(Category::Discovery)
    } else if same_text(term, "lateral-movement") {
        Some(Category::LateralMovement)
    } else if same_text(term, "collection") {
        Some(Category::Collection)
    } else if same_text(term, "command-and-control") {
        Some(Category::CommandAndControl)
    } else if same_text(term, "exfiltration") {
        Some(Category::Exfiltration)
    } else if same_text(term, "impact") {
        Some(Category::Impact)
    } else if same_text(term, "aws") {
        Some(Category::Aws)
    } else if same_text(term, "azure") {
        Some(Category::Azure)
    } else if same_text(term, "azure-ad") {
        Some(Category::AzureAd)
    } else if same_text(term, "gcp") {
        Some(Category::Gcp)
    } else if same_text(term, "linux") {
        Some(Category::Linux)
    } else if same_text(term, "macos") {
        Some(Category::Macos)
    } else if same_text(term, "office-365") {
        Some(Category::Office365)
    } else if same_text(term, "saas") {
        Some(Category::Saas)
    } else if same_text(term, "windows") {
        Some(Category::Windows)
    } else if same_text(term, "overlap") {
        Some(Category::Overlap)
    } else if same_text(term, "xref:datasources:platforms") {
        Some(Category::XrefDatasourcesPlatforms)
    } else if same_text(term, "xref:datasources:tactics") {
        Some(Category::XrefDatasourcesTactics)
    } else if same_text(term, "adversaries") {
        Some(Category::Adversaries)
    } else if same_text(term, "malware") {
        Some(Category::AllMalware)
    } else if same_text(term, "tools") {
        Some(Category::Tools)
    } else {
        None
    }
}

/// The lowercase forms of the texts, in order.
pub open spec fn lowered(names: Seq<Seq<char>>) -> Seq<Seq<char>> {
    names.map_values(|s: Seq<char>| lowercase_of(s))
}

/// One of the texts holds `needle` as a contiguous run.
pub open spec fn mentions(names: Seq<Seq<char>>, needle: Seq<char>) -> bool {
    exists|i: int| 0 <= i < names.len() && contains_text(#[trigger] names[i], needle)
}

/// Whether one of the texts is `term`.
pub fn lists(names: &Vec<String>, term: &str) -> (r: bool)
    ensures
        r == views(names@).contains(term@),
{
    let mut i: usize = 0;
    while i < names.len()
        invariant
            i <= names.len(),
            forall|j: int| 0 <= j < i ==> views(names@)[j] != term@,
        decreases names.len() - i,
    {
        if same_text(names[i].as_str(), term) {
            assert(views(names@)[i as int] == term@);
            return true;
        }
        i = i + 1;
    }
    false
}

/// Whether one of the texts holds `needle` as a contiguous run.
pub fn any_mentions(names: &Vec<String>, needle: &str) -> (r: bool)
    ensures
        r == mentions(views(names@), needle@),
{
    let mut i: usize = 0;
    while i < names.len()
        invariant
            i <= names.len(),
            forall|j: int| 0 <= j < i ==> !contains_text(#[trigger] views(names@)[j], needle@),
        decreases names.len() - i,
    {
        if contains(names[i].as_str(), needle) {
            assert(contains_text(views(names@)[i as int], needle@));
            return true;
        }
        i = i + 1;
    }
    false
}

/// Brings every text of a list to lowercase, in order.
pub fn lower_all(names: &Vec<String>) -> (r: Vec<String>)
    ensures
        views(r@) == lowered(views(names@)),
{
    let ghost want = lowered(views(names@));
    let mut r: Vec<String> = Vec::new();
    let mut i: usize = 0;
    while i < names.len()
        invariant
            i <= names.len(),
            want == lowered(views(names@)),
            views(r@) == want.take(i as int),
        decreases names.len() - i,
    {
        let ghost before = views(r@);
        r.push(lowercase(names[i].as_str()));
        assert(views(r@) =~= before.push(want[i as int]));
        i = i + 1;
        assert(views(r@) =~= want.take(i as int));
    }
    assert(want.take(i as int) =~= want);
    r
}

/// The text is a technique identifier in lowercase: `t` and four digits.
pub open spec fn is_technique_term(term: Seq<char>) -> bool {
    term.len() == 5 && technique_shape_at(term, 0, 't')
}

/// The text is a subtechnique identifier in lowercase: a technique identifier, a dot
/// and three digits.
pub open spec fn is_subtechnique_term(term: Seq<char>) -> bool {
    term.len() == 9 && subtechnique_shape_at(term, 0, 't')
}

/// The names that terms are matched against, taken from one snapshot.
#[derive(Clone, Debug, PartialEq, Eq)]
pub struct TermClassifier {
    pub datasources: Vec<String>,
    pub platforms: Vec<String>,
    pub adversaries: Vec<String>,
    pub malware: Vec<String>,
    pub tools: Vec<String>,
    pub names: Vec<String>,
}

/// What a classifier holds, as mathematical values.
pub struct ClassifierView {
    pub datasources: Seq<Seq<char>>,
    pub platforms: Seq<Seq<char>>,
    pub adversaries: Seq<Seq<char>>,
    pub malware: Seq<Seq<char>>,
    pub tools: Seq<Seq<char>>,
    pub names: Seq<Seq<char>>,
}

impl View for TermClassifier {
    type V = ClassifierView;

    open spec fn view(&self) -> ClassifierView {
        ClassifierView {
            datasources: views(self.datasources@),
            platforms: views(self.platforms@),
            adversaries: views(self.adversaries@),
            malware: views(self.malware@),
            tools: views(self.tools@),
            names: views(self.names@),
        }
    }
}

/// The names of the records, in order.
pub open spec fn technique_names(rs: Seq<crate::enterprise::TechniqueView>) -> Seq<Seq<char>> {
    rs.map_values(|r: crate::enterprise::TechniqueView| r.technique)
}

/// The names that a snapshot gives to match terms against: its datasources and
/// platforms as they are; its adversaries, malware, tools and the names of its
/// techniques and subtechniques in lowercase.
pub open spec fn registries_of(b: BaselineView) -> ClassifierView {
    ClassifierView {
        datasources: b.datasources,
        platforms: b.platforms,
        adversaries: lowered(b.adversaries),
        malware: lowered(b.malware),
        tools: lowered(b.tools),
        names: lowered(
            technique_names(b.breakdown_techniques) + technique_names(b.breakdown_subtechniques),
        ),
    }
}

/// The term names a known datasource, alone or after a known platform and a colon.
pub open spec fn names_datasource(c: ClassifierView, term: Seq<char>) -> bool {
    ||| c.datasources.contains(term)
    ||| {
        &&& split_on(term, ':').len() == 2
        &&& c.platforms.contains(split_on(term, ':')[0])
        &&& c.datasources.contains(split_on(term, ':')[1])
    }
}

/// The category of one term, by the first rule that takes it: a reserved word; a
/// datasource; an adversary; a piece of malware; a tool; a technique identifier; a
/// subtechnique identifier; a part of a technique name. `None` where no rule takes it.
pub open spec fn classify_one(c: ClassifierView, term: Seq<char>) -> Option<Category> {
    if keyword_of(term) is Some {
        keyword_of(term)
    } else if names_datasource(c, term) {
        Some(Category::Datasource)
    } else if c.adversaries.contains(term) {
        Some(Category::Adversary)
    } else if c.malware.contains(term) {
        Some(Category::Malware)
    } else if c.tools.contains(term) {
        Some(Category::Tool)
    } else if is_technique_term(term) {
        Some(Category::TechniqueId)
    } else if is_subtechnique_term(term) {
        Some(Category::SubtechniqueId)
    } else if term.len() > 0 && mentions(c.names, term) {
        Some(Category::TechniqueName)
    } else {
        None
    }
}

/// A sub-term of a composite query with its category.
#[derive(Clone, Debug, PartialEq, Eq)]
pub struct Classified {
    pub term: String,
    pub category: Option<Category>,
}

/// What a classified sub-term holds, as mathematical values.
pub struct ClassifiedView {
    pub term: Seq<char>,
    pub category: Option<Category>,
}

impl View for Classified {
    type V = ClassifiedView;

    open spec fn view(&self) -> ClassifiedView {
        ClassifiedView { term: self.term@, category: self.category }
    }
}

/// What a raw search term comes to.
#[derive(Clone, Debug, PartialEq, Eq)]
pub enum Classification {
    /// No rule takes the term.
    NoMatch,
    /// The term, cleaned, falls under one category.
    Single(String, Category),
    /// The term holds commas: each of its sub-terms with its own category.
    Composite(Vec<Classified>),
}

/// What a classification holds, as mathematical values.
pub enum ClassificationView {
    NoMatch,
    Single(Seq<char>, Category),
    Composite(Seq<ClassifiedView>),
}

impl View for Classification {
    type V = ClassificationView;

    open spec fn view(&self) -> ClassificationView {
        match self {
            Classification::NoMatch => ClassificationView::NoMatch,
            Classification::Single(term, category) => ClassificationView::Single(term@, *category),
            Classification::Composite(parts) => ClassificationView::Composite(views(parts@)),
        }
    }
}

/// A raw term cleaned for matching: without trailing whitespace, in lowercase.
pub open spec fn cleaned(raw: Seq<char>) -> Seq<char> {
    lowercase_of(trimmed_end(raw))
}

/// Cleans a raw term for matching.
pub fn clean(raw: &str) -> (r: String)
    ensures
        r@ == cleaned(raw@),
{
    let trimmed = trim_trailing(raw);
    lowercase(trimmed.as_str())
}

/// The sub-terms of a composite term, each with its category.
pub open spec fn classify_parts(c: ClassifierView, term: Seq<char>) -> Seq<ClassifiedView> {
    split_on(term, ',').map_values(
        |part: Seq<char>| ClassifiedView { term: part, category: classify_one(c, part) },
    )
}

/// What a cleaned term comes to: with a comma, its sub-terms each on its own; without,
/// its one category or no match.
pub open spec fn classify_cleaned(c: ClassifierView, term: Seq<char>) -> ClassificationView {
    if term.contains(',') {
        ClassificationView::Composite(classify_parts(c, term))
    } else {
        match classify_one(c, term) {
            Some(category) => ClassificationView::Single(term, category),
            None => ClassificationView::NoMatch,
        }
    }
}

impl TermClassifier {
    /// Takes from a snapshot the names that terms are matched against.
    pub fn new(baseline: &EnterpriseMatrixBreakdown) -> (r: Self)
        ensures
            r@ == registries_of(baseline@),
    {
        let mut names: Vec<String> = Vec::new();
        let ghost first = technique_names(baseline@.breakdown_techniques);
        let ghost second = technique_names(baseline@.breakdown_subtechniques);
        let mut i: usize = 0;
        while i < baseline.breakdown_techniques.len()
            invariant
                i <= baseline.breakdown_techniques.len(),
                first == technique_names(baseline@.breakdown_techniques),
                views(names@) == lowered(first.take(i as int)),
            decreases baseline.breakdown_techniques.len() - i,
        {
            let ghost before = views(names@);
            names.push(lowercase(baseline.breakdown_techniques[i].technique.as_str()));
            assert(views(names@) =~= before.push(lowercase_of(first[i as int])));
            i = i + 1;
            assert(views(names@) =~= lowered(first.take(i as int)));
        }
        assert(first.take(i as int) =~= first);
        let mut j: usize = 0;
        assert(lowered(first + second.take(0)) =~= lowered(first));
        while j < baseline.breakdown_subtechniques.len()
            invariant
                j <= baseline.breakdown_subtechniques.len(),
                second == technique_names(baseline@.breakdown_subtechniques),
                views(names@) == lowered(first + second.take(j as int)),
            decreases baseline.breakdown_subtechniques.len() - j,
        {
            let ghost before = views(names@);
            names.push(lowercase(baseline.breakdown_subtechniques[j].technique.as_str()));
            assert(views(names@) =~= before.push(lowercase_of(second[j as int])));
            j = j + 1;
            assert(views(names@) =~= lowered(first + second.take(j as int)));
        }
        assert(second.take(j as int) =~= second);
        TermClassifier {
            datasources: copy_all(&baseline.datasources),
            platforms: copy_all(&baseline.platforms),
            adversaries: lower_all(&baseline.adversaries),
            malware: lower_all(&baseline.malware),
            tools: lower_all(&baseline.tools),
            names: names,
        }
    }

    /// Whether the term names a known datasource, alone or after a known platform.
    pub fn names_datasource(&self, term: &str) -> (r: bool)
        ensures
            r == names_datasource(self@, term@),
    {
        if lists(&self.datasources, term) {
            return true;
        }
        let parts = split(term, ':');
        if parts.len() != 2 {
            return false;
        }
        assert(views(parts@)[0] == parts[0]@ && views(parts@)[1] == parts[1]@);
        lists(&self.platforms, parts[0].as_str()) && lists(&self.datasources, parts[1].as_str())
    }

    /// The category of one cleaned term without commas, by the first rule that takes it.
    pub fn classify_term(&self, term: &str) -> (r: Option<Category>)
        ensures
            r == classify_one(self@, term@),
    {
        let reserved = keyword(term);
        if reserved.is_some() {
            return reserved;
        }
        if self.names_datasource(term) {
            return Some(Category::Datasource);
        }
        if lists(&self.adversaries, term) {
            return Some(Category::Adversary);
        }
        if lists(&self.malware, term) {
            return Some(Category::Malware);
        }
        if lists(&self.tools, term) {
            return Some(Category::Tool);
        }
        let v = chars_of(term);
        if v.len() == 5 && technique_id_at(&v, 0, 't') {
            return Some(Category::TechniqueId);
        }
        if v.len() == 9 && subtechnique_id_at(&v, 0, 't') {
            return Some(Category::SubtechniqueId);
        }
        if v.len() > 0 && any_mentions(&self.names, term) {
            return Some(Category::TechniqueName);
        }
        None
    }

    /// What a cleaned term comes to.
    pub fn classify_cleaned(&self, term: &str) -> (r: Classification)
        ensures
            r@ == classify_cleaned(self@, term@),
    {
        if has_char(term, ',') {
            let pieces = split(term, ',');
            let ghost want = classify_parts(self@, term@);
            let mut parts: Vec<Classified> = Vec::new();
            let mut i: usize = 0;
            while i < pieces.len()
                invariant
                    i <= pieces.len(),
                    views(pieces@) == split_on(term@, ','),
                    want == classify_parts(self@, term@),
                    views(parts@) == want.take(i as int),
                decreases pieces.len() - i,
            {
                let ghost before = views(parts@);
                let category = self.classify_term(pieces[i].as_str());
                assert(views(pieces@)[i as int] == pieces[i as int]@);
                parts.push(Classified { term: pieces[i].clone(), category: category });
                assert(views(parts@) =~= before.push(want[i as int]));
                i = i + 1;
                assert(views(parts@) =~= want.take(i as int));
            }
            assert(want.take(i as int) =~= want);
            Classification::Composite(parts)
        } else {
            match self.classify_term(term) {
                Some(category) => Classification::Single(term.to_owned(), category),
                None => Classification::NoMatch,
            }
        }
    }

    /// Classifies a raw search term: trailing whitespace and case are ignored; a term
    /// with commas is split, and each sub-term classified on its own. Never fails.
    pub fn classify(&self, raw: &str) -> (r: Classification)
        ensures
            r@ == classify_cleaned(self@, cleaned(raw@)),
    {
        let term = clean(raw);
        self.classify_cleaned(term.as_str())
    }
}

/// Two categories with the same code are the same category.
pub proof fn lemma_code_unique(a: Category, b: Category)
    requires
        a.code_of() == b.code_of(),
    ensures
        a == b,
{
}

} // verus!
