use vstd::prelude::*;
use crate::classifier::{any_mentions, mentions};
use crate::enterprise::{
    AdversaryView, EnterpriseAdversary, EnterpriseWeapon, EnterpriseTechnique, WeaponView,
    TechniqueView,
};
use crate::keyed::{copy_all, Keyed};
use crate::lex::views;
use crate::normalizer::{lowercase, lowercase_of};
use crate::scan::{contains, contains_text};
use crate::select::Pick;
use crate::text::same_text;

verus! {

/// Takes every value, as it is.
pub struct Everything {}

impl<T: Keyed> Pick<T> for Everything {
    open spec fn accepts(&self, v: T::V) -> bool {
        true
    }

    open spec fn shaped(&self, v: T::V) -> T::V {
        v
    }

    fn test(&self, item: &T) -> (r: bool) {
        true
    }

    fn shape(&self, item: &T) -> (r: T) {
        item.duplicate()
    }
}

/// Takes the records whose tactic holds the term.
pub struct UnderTactic {
    pub term: String,
}

impl Pick<EnterpriseTechnique> for UnderTactic {
    open spec fn accepts(&self, v: TechniqueView) -> bool {
        contains_text(v.tactic, self.term@)
    }

    open spec fn shaped(&self, v: TechniqueView) -> TechniqueView {
        v
    }

    fn test(&self, item: &EnterpriseTechnique) -> (r: bool) {
        contains(item.tactic.as_str(), self.term.as_str())
    }

    fn shape(&self, item: &EnterpriseTechnique) -> (r: EnterpriseTechnique) {
        item.copy()
    }
}

/// The record as it is reported for one platform: with that platform alone.
pub open spec fn on_platform(v: TechniqueView, platform: Seq<char>) -> TechniqueView {
    TechniqueView { platforms: seq![platform], ..v }
}

/// Takes the records of which a platform holds the term, each reported for the term alone.
pub struct OnPlatform {
    pub term: String,
}

impl Pick<EnterpriseTechnique> for OnPlatform {
    open spec fn accepts(&self, v: TechniqueView) -> bool {
        mentions(v.platforms, self.term@)
    }

    open spec fn shaped(&self, v: TechniqueView) -> TechniqueView {
        on_platform(v, self.term@)
    }

    fn test(&self, item: &EnterpriseTechnique) -> (r: bool) {
        any_mentions(&item.platforms, self.term.as_str())
    }

    fn shape(&self, item: &EnterpriseTechnique) -> (r: EnterpriseTechnique) {
        let mut platforms: Vec<String> = Vec::new();
        platforms.push(self.term.clone());
        assert(views(platforms@) =~= seq![self.term@]);
        EnterpriseTechnique {
            platforms: platforms,
            tid: item.tid.clone(),
            tactic: item.tactic.clone(),
            technique: item.technique.clone(),
            datasources: copy_all(&item.datasources),
            has_subtechniques: item.has_subtechniques,
            subtechniques: copy_all(&item.subtechniques),
            is_revoked: item.is_revoked,
            is_deprecated: item.is_deprecated,
        }
    }
}

/// The record as it is reported for one datasource: with that datasource alone, on
/// the platform asked for, or on its own platforms where `None` is asked for.
pub open spec fn from_datasource(
    v: TechniqueView,
    platform: Seq<char>,
    datasource: Seq<char>,
) -> TechniqueView {
    TechniqueView {
        platforms: if platform == "None"@ {
            v.platforms
        } else {
            seq![platform]
        },
        datasources: seq![datasource],
        ..v
    }
}

/// Takes the records of which a datasource holds the term, each reported for the
/// term alone on the platform asked for.
pub struct FromDatasource {
    pub platform: String,
    pub datasource: String,
}

impl Pick<EnterpriseTechnique> for FromDatasource {
    open spec fn accepts(&self, v: TechniqueView) -> bool {
        mentions(v.datasources, self.datasource@)
    }

    open spec fn shaped(&self, v: TechniqueView) -> TechniqueView {
        from_datasource(v, self.platform@, self.datasource@)
    }

    fn test(&self, item: &EnterpriseTechnique) -> (r: bool) {
        any_mentions(&item.datasources, self.datasource.as_str())
    }

    fn shape(&self, item: &EnterpriseTechnique) -> (r: EnterpriseTechnique) {
        let mut platforms: Vec<String> = Vec::new();
        if same_text(self.platform.as_str(), "None") {
            platforms = copy_all(&item.platforms);
        } else {
            platforms.push(self.platform.clone());
            assert(views(platforms@) =~= seq![self.platform@]);
        }
        let mut datasources: Vec<String> = Vec::new();
        datasources.push(self.datasource.clone());
        assert(views(datasources@) =~= seq![self.datasource@]);
        EnterpriseTechnique {
            platforms: platforms,
            tid: item.tid.clone(),
            tactic: item.tactic.clone(),
            technique: item.technique.clone(),
            datasources: datasources,
            has_subtechniques: item.has_subtechniques,
            subtechniques: copy_all(&item.subtechniques),
            is_revoked: item.is_revoked,
            is_deprecated: item.is_deprecated,
        }
    }
}

/// Takes the records with the identifier, whatever the case of its letters.
pub struct WithId {
    /// The identifier asked for, in lowercase.
    pub term: String,
}

impl Pick<EnterpriseTechnique> for WithId {
    open spec fn accepts(&self, v: TechniqueView) -> bool {
        lowercase_of(v.tid) == self.term@
    }

    open spec fn shaped(&self, v: TechniqueView) -> TechniqueView {
        v
    }

    fn test(&self, item: &EnterpriseTechnique) -> (r: bool) {
        let low = lowercase(item.tid.as_str());
        same_text(low.as_str(), self.term.as_str())
    }

    fn shape(&self, item: &EnterpriseTechnique) -> (r: EnterpriseTechnique) {
        item.copy()
    }
}

/// Takes the records whose identifier holds the identifier of a parent.
pub struct ChildrenOf {
    pub parent: String,
}

impl Pick<EnterpriseTechnique> for ChildrenOf {
    open spec fn accepts(&self, v: TechniqueView) -> bool {
        contains_text(v.tid, self.parent@)
    }

    open spec fn shaped(&self, v: TechniqueView) -> TechniqueView {
        v
    }

    fn test(&self, item: &EnterpriseTechnique) -> (r: bool) {
        contains(item.tid.as_str(), self.parent.as_str())
    }

    fn shape(&self, item: &EnterpriseTechnique) -> (r: EnterpriseTechnique) {
        item.copy()
    }
}

/// Takes the records whose name holds the term, whatever the case of its letters.
pub struct NamedLike {
    /// The text asked for, in lowercase.
    pub term: String,
}

impl Pick<EnterpriseTechnique> for NamedLike {
    open spec fn accepts(&self, v: TechniqueView) -> bool {
        contains_text(lowercase_of(v.technique), self.term@)
    }

    open spec fn shaped(&self, v: TechniqueView) -> TechniqueView {
        v
    }

    fn test(&self, item: &EnterpriseTechnique) -> (r: bool) {
        let low = lowercase(item.technique.as_str());
        contains(low.as_str(), self.term.as_str())
    }

    fn shape(&self, item: &EnterpriseTechnique) -> (r: EnterpriseTechnique) {
        item.copy()
    }
}

/// Takes the records without subtechniques.
pub struct Childless {}

impl Pick<EnterpriseTechnique> for Childless {
    open spec fn accepts(&self, v: TechniqueView) -> bool {
        !v.has_subtechniques
    }

    open spec fn shaped(&self, v: TechniqueView) -> TechniqueView {
        v
    }

    fn test(&self, item: &EnterpriseTechnique) -> (r: bool) {
        !item.has_subtechniques
    }

    fn shape(&self, item: &EnterpriseTechnique) -> (r: EnterpriseTechnique) {
        item.copy()
    }
}

/// Takes the records without datasources.
pub struct Sourceless {}

impl Pick<EnterpriseTechnique> for Sourceless {
    open spec fn accepts(&self, v: TechniqueView) -> bool {
        v.datasources.len() == 0
    }

    open spec fn shaped(&self, v: TechniqueView) -> TechniqueView {
        v
    }

    fn test(&self, item: &EnterpriseTechnique) -> (r: bool) {
        item.datasources.len() == 0
    }

    fn shape(&self, item: &EnterpriseTechnique) -> (r: EnterpriseTechnique) {
        item.copy()
    }
}

/// The identifier of the record stands in the list under another tactic too.
pub open spec fn overlaps(all: Seq<TechniqueView>, v: TechniqueView) -> bool {
    exists|j: int|
        0 <= j < all.len() && (#[trigger] all[j]).tid == v.tid && all[j].tactic != v.tactic
}

/// Takes the records whose identifier stands in the list under more than one tactic.
pub struct Overlapped<'a> {
    pub all: &'a Vec<EnterpriseTechnique>,
}

impl<'a> Pick<EnterpriseTechnique> for Overlapped<'a> {
    open spec fn accepts(&self, v: TechniqueView) -> bool {
        overlaps(views(self.all@), v)
    }

    open spec fn shaped(&self, v: TechniqueView) -> TechniqueView {
        v
    }

    fn test(&self, item: &EnterpriseTechnique) -> (r: bool) {
        let ghost all = views(self.all@);
        let mut j: usize = 0;
        while j < self.all.len()
            invariant
                j <= self.all.len(),
                all == views(self.all@),
                forall|k: int|
                    0 <= k < j ==> !((#[trigger] all[k]).tid == item@.tid && all[k].tactic
                        != item@.tactic),
            decreases self.all.len() - j,
        {
            if same_text(self.all[j].tid.as_str(), item.tid.as_str()) && !same_text(
                self.all[j].tactic.as_str(),
                item.tactic.as_str(),
            ) {
                assert(all[j as int].tid == item@.tid && all[j as int].tactic != item@.tactic);
                return true;
            }
            j = j + 1;
        }
        false
    }

    fn shape(&self, item: &EnterpriseTechnique) -> (r: EnterpriseTechnique) {
        item.copy()
    }
}

/// Takes the adversaries with the name, whatever the case of its letters.
pub struct AdversaryNamed {
    /// The name asked for, in lowercase.
    pub term: String,
}

impl Pick<EnterpriseAdversary> for AdversaryNamed {
    open spec fn accepts(&self, v: AdversaryView) -> bool {
        lowercase_of(v.name) == self.term@
    }

    open spec fn shaped(&self, v: AdversaryView) -> AdversaryView {
        v
    }

    fn test(&self, item: &EnterpriseAdversary) -> (r: bool) {
        let low = lowercase(item.name.as_str());
        same_text(low.as_str(), self.term.as_str())
    }

    fn shape(&self, item: &EnterpriseAdversary) -> (r: EnterpriseAdversary) {
        item.duplicate()
    }
}

/// Takes the pieces of software with the name, whatever the case of its letters.
pub struct WeaponNamed {
    /// The name asked for, in lowercase.
    pub term: String,
}

impl Pick<EnterpriseWeapon> for WeaponNamed {
    open spec fn accepts(&self, v: WeaponView) -> bool {
        lowercase_of(v.name) == self.term@
    }

    open spec fn shaped(&self, v: WeaponView) -> WeaponView {
        v
    }

    fn test(&self, item: &EnterpriseWeapon) -> (r: bool) {
        let low = lowercase(item.name.as_str());
        same_text(low.as_str(), self.term.as_str())
    }

    fn shape(&self, item: &EnterpriseWeapon) -> (r: EnterpriseWeapon) {
        item.duplicate()
    }
}

} // verus!
