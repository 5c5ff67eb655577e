use vstd::prelude::*;
use crate::lex::views;
use crate::scan::{contains, contains_text};
use crate::text::{chars_of, same_text};

verus! {

/// One object of a bundle, with what ingestion reads of it.
#[derive(Clone, Debug, PartialEq, Eq)]
pub struct BundleObject {
    /// The object's `type`.
    pub kind: String,
    /// The whole object as compact text.
    pub serialized: String,
    /// The `external_id` of the first external reference.
    pub external_id: Option<String>,
    pub name: Option<String>,
    /// The phase names of `kill_chain_phases`.
    pub kill_chain_phases: Option<Vec<String>>,
    /// The names of `x_mitre_platforms`.
    pub platforms: Option<Vec<String>>,
    /// The names of `x_mitre_data_sources`.
    pub data_sources: Option<Vec<String>>,
}

/// What a bundle object holds, as mathematical values.
pub struct BundleView {
    pub kind: Seq<char>,
    pub serialized: Seq<char>,
    pub external_id: Option<Seq<char>>,
    pub name: Option<Seq<char>>,
    pub kill_chain_phases: Option<Seq<Seq<char>>>,
    pub platforms: Option<Seq<Seq<char>>>,
    pub data_sources: Option<Seq<Seq<char>>>,
}

/// The texts of an optional list of strings.
pub open spec fn listed(v: Option<Vec<String>>) -> Option<Seq<Seq<char>>> {
    match v {
        Some(items) => Some(views(items@)),
        None => None,
    }
}

/// The text of an optional string.
pub open spec fn named(v: Option<String>) -> Option<Seq<char>> {
    match v {
        Some(s) => Some(s@),
        None => None,
    }
}

impl View for BundleObject {
    type V = BundleView;

    open spec fn view(&self) -> BundleView {
        BundleView {
            kind: self.kind@,
            serialized: self.serialized@,
            external_id: named(self.external_id),
            name: named(self.name),
            kill_chain_phases: listed(self.kill_chain_phases),
            platforms: listed(self.platforms),
            data_sources: listed(self.data_sources),
        }
    }
}

/// A required field that an object lacks.
#[derive(Clone, Copy, Debug, PartialEq, Eq, Structural)]
pub enum MissingField {
    ExternalId,
    Name,
    KillChainPhases,
}

/// One of the ten decimal digits.
pub open spec fn is_digit(c: char) -> bool {
    '0' as int <= c as int <= '9' as int
}

/// At `at` stand `lead` and four digits: the shape of a technique identifier.
pub open spec fn technique_shape_at(s: Seq<char>, at: int, lead: char) -> bool {
    &&& 0 <= at
    &&& at + 5 <= s.len()
    &&& s[at] == lead
    &&& is_digit(s[at + 1])
    &&& is_digit(s[at + 2])
    &&& is_digit(s[at + 3])
    &&& is_digit(s[at + 4])
}

/// At `at` stand a technique identifier, a dot and three digits: the shape of a
/// subtechnique identifier.
pub open spec fn subtechnique_shape_at(s: Seq<char>, at: int, lead: char) -> bool {
    &&& technique_shape_at(s, at, lead)
    &&& at + 9 <= s.len()
    &&& s[at + 5] == '.'
    &&& is_digit(s[at + 6])
    &&& is_digit(s[at + 7])
    &&& is_digit(s[at + 8])
}

/// The text holds a subtechnique identifier somewhere.
pub open spec fn holds_subtechnique_id(s: Seq<char>) -> bool {
    exists|at: int| subtechnique_shape_at(s, at, 'T')
}

/// An object of the type `attack-pattern`.
pub open spec fn is_attack_pattern(o: BundleView) -> bool {
    o.kind == "attack-pattern"@
}

/// An attack pattern whose text mentions `revoked`.
pub open spec fn is_revoked(o: BundleView) -> bool {
    is_attack_pattern(o) && contains_text(o.serialized, "revoked"@)
}

/// An attack pattern whose text does not mention `revoked`.
pub open spec fn is_active(o: BundleView) -> bool {
    is_attack_pattern(o) && !contains_text(o.serialized, "revoked"@)
}

/// The first required field that the object lacks: identifier and name on every
/// attack pattern, kill-chain phases on an active one.
pub open spec fn missing_field(o: BundleView) -> Option<MissingField> {
    if !is_attack_pattern(o) {
        None
    } else if o.external_id is None {
        Some(MissingField::ExternalId)
    } else if o.name is None {
        Some(MissingField::Name)
    } else if is_active(o) && o.kill_chain_phases is None {
        Some(MissingField::KillChainPhases)
    } else {
        None
    }
}

/// Whether the character is a decimal digit.
fn digit_here(c: char) -> (r: bool)
    ensures
        r == is_digit(c),
{
    c >= '0' && c <= '9'
}

/// Whether a technique identifier stands at `at`.
pub fn technique_id_at(s: &Vec<char>, at: usize, lead: char) -> (r: bool)
    ensures
        r == technique_shape_at(s@, at as int, lead),
{
    if s.len() < 5 || at > s.len() - 5 {
        return false;
    }
    s[at] == lead && digit_here(s[at + 1]) && digit_here(s[at + 2]) && digit_here(s[at + 3])
        && digit_here(s[at + 4])
}

/// Whether a subtechnique identifier stands at `at`.
pub fn subtechnique_id_at(s: &Vec<char>, at: usize, lead: char) -> (r: bool)
    ensures
        r == subtechnique_shape_at(s@, at as int, lead),
{
    if s.len() < 9 || at > s.len() - 9 {
        return false;
    }
    technique_id_at(s, at, lead) && s[at + 5] == '.' && digit_here(s[at + 6]) && digit_here(
        s[at + 7],
    ) && digit_here(s[at + 8])
}

/// Whether the text holds a subtechnique identifier somewhere.
pub fn names_subtechnique(text: &str) -> (r: bool)
    ensures
        r == holds_subtechnique_id(text@),
{
    let s = chars_of(text);
    let mut at: usize = 0;
    while at < s.len()
        invariant
            at <= s.len(),
            s@ == text@,
            forall|j: int| 0 <= j < at ==> !subtechnique_shape_at(s@, j, 'T'),
        decreases s.len() - at,
    {
        if subtechnique_id_at(&s, at, 'T') {
            return true;
        }
        at = at + 1;
    }
    false
}

impl BundleObject {
    /// Whether the object is an attack pattern.
    pub fn is_attack_pattern(&self) -> (r: bool)
        ensures
            r == is_attack_pattern(self@),
    {
        same_text(self.kind.as_str(), "attack-pattern")
    }

    /// Whether the object's text mentions `revoked`.
    pub fn mentions_revoked(&self) -> (r: bool)
        ensures
            r == contains_text(self@.serialized, "revoked"@),
    {
        contains(self.serialized.as_str(), "revoked")
    }

    /// The first required field that the object lacks.
    pub fn missing_field(&self) -> (r: Option<MissingField>)
        ensures
            r == missing_field(self@),
    {
        if !self.is_attack_pattern() {
            None
        } else if self.external_id.is_none() {
            Some(MissingField::ExternalId)
        } else if self.name.is_none() {
            Some(MissingField::Name)
        } else if !self.mentions_revoked() && self.kill_chain_phases.is_none() {
            Some(MissingField::KillChainPhases)
        } else {
            None
        }
    }
}

} // verus!
