use vstd::prelude::*;
use crate::keyed::{
    copy_all, flag_text, lemma_flag_text, lemma_key_decided, lemma_key_same, rank_flag,
    rank_single, Keyed,
};
use crate::lex::{views, Rank};
use crate::text::rank_lists;

verus! {

/// One technique or subtechnique under one tactic.
#[derive(Clone, Debug, PartialEq, Eq)]
pub struct EnterpriseTechnique {
    pub platforms: Vec<String>,
    pub tid: String,
    pub tactic: String,
    pub technique: String,
    pub datasources: Vec<String>,
    pub has_subtechniques: bool,
    pub subtechniques: Vec<String>,
    pub is_revoked: bool,
    pub is_deprecated: bool,
}

/// What a technique record holds, as mathematical values.
pub struct TechniqueView {
    pub platforms: Seq<Seq<char>>,
    pub tid: Seq<char>,
    pub tactic: Seq<char>,
    pub technique: Seq<char>,
    pub datasources: Seq<Seq<char>>,
    pub has_subtechniques: bool,
    pub subtechniques: Seq<Seq<char>>,
    pub is_revoked: bool,
    pub is_deprecated: bool,
}

impl View for EnterpriseTechnique {
    type V = TechniqueView;

    open spec fn view(&self) -> TechniqueView {
        TechniqueView {
            platforms: views(self.platforms@),
            tid: self.tid@,
            tactic: self.tactic@,
            technique: self.technique@,
            datasources: views(self.datasources@),
            has_subtechniques: self.has_subtechniques,
            subtechniques: views(self.subtechniques@),
            is_revoked: self.is_revoked,
            is_deprecated: self.is_deprecated,
        }
    }
}

/// The key of a technique record: its identifier first, then all it holds.
pub open spec fn technique_key(t: TechniqueView) -> Seq<Seq<Seq<char>>> {
    seq![
        seq![t.tid],
        seq![t.tactic],
        seq![t.technique],
        t.platforms,
        t.datasources,
        t.subtechniques,
        seq![flag_text(t.has_subtechniques)],
        seq![flag_text(t.is_revoked)],
        seq![flag_text(t.is_deprecated)],
    ]
}

impl EnterpriseTechnique {
    /// A record that holds nothing.
    pub fn new() -> (r: Self)
        ensures
            r@ == (TechniqueView {
                platforms: Seq::empty(),
                tid: Seq::empty(),
                tactic: Seq::empty(),
                technique: Seq::empty(),
                datasources: Seq::empty(),
                has_subtechniques: false,
                subtechniques: Seq::empty(),
                is_revoked: false,
                is_deprecated: false,
            }),
    {
        let r = EnterpriseTechnique {
            platforms: Vec::new(),
            tid: String::new(),
            tactic: String::new(),
            technique: String::new(),
            datasources: Vec::new(),
            has_subtechniques: false,
            subtechniques: Vec::new(),
            is_revoked: false,
            is_deprecated: false,
        };
        assert(views(r.platforms@) =~= Seq::empty());
        assert(views(r.datasources@) =~= Seq::empty());
        assert(views(r.subtechniques@) =~= Seq::empty());
        r
    }

    /// A copy that holds the same values.
    pub fn copy(&self) -> (r: Self)
        ensures
            r@ == self@,
    {
        EnterpriseTechnique {
            platforms: copy_all(&self.platforms),
            tid: self.tid.clone(),
            tactic: self.tactic.clone(),
            technique: self.technique.clone(),
            datasources: copy_all(&self.datasources),
            has_subtechniques: self.has_subtechniques,
            subtechniques: copy_all(&self.subtechniques),
            is_revoked: self.is_revoked,
            is_deprecated: self.is_deprecated,
        }
    }
}

impl Keyed for EnterpriseTechnique {
    open spec fn key_of(v: TechniqueView) -> Seq<Seq<Seq<char>>> {
        technique_key(v)
    }

    proof fn lemma_key_of(a: TechniqueView, b: TechniqueView) {
    let x = technique_key(a);
    let y = technique_key(b);
    assert(x[0][0] == y[0][0]);
    assert(x[1][0] == y[1][0]);
    assert(x[2][0] == y[2][0]);
    assert(x[3] == y[3]);
    assert(x[4] == y[4]);
    assert(x[5] == y[5]);
    assert(x[6][0] == y[6][0]);
    assert(x[7][0] == y[7][0]);
    assert(x[8][0] == y[8][0]);
    lemma_flag_text(a.has_subtechniques, b.has_subtechniques);
    lemma_flag_text(a.is_revoked, b.is_revoked);
    lemma_flag_text(a.is_deprecated, b.is_deprecated);
    }

    fn rank(&self, other: &Self) -> (r: Rank) {
        let ghost a = technique_key(self@);
        let ghost b = technique_key(other@);
        let r = rank_single(self.tid.as_str(), other.tid.as_str());
        if r != Rank::Same {
            proof {
                lemma_key_decided(a, b, 0, r);
            }
            return r;
        }
        let r = rank_single(self.tactic.as_str(), other.tactic.as_str());
        if r != Rank::Same {
            proof {
                lemma_key_decided(a, b, 1, r);
            }
            return r;
        }
        let r = rank_single(self.technique.as_str(), other.technique.as_str());
        if r != Rank::Same {
            proof {
                lemma_key_decided(a, b, 2, r);
            }
            return r;
        }
        let r = rank_lists(&self.platforms, &other.platforms);
        if r != Rank::Same {
            proof {
                lemma_key_decided(a, b, 3, r);
            }
            return r;
        }
        let r = rank_lists(&self.datasources, &other.datasources);
        if r != Rank::Same {
            proof {
                lemma_key_decided(a, b, 4, r);
            }
            return r;
        }
        let r = rank_lists(&self.subtechniques, &other.subtechniques);
        if r != Rank::Same {
            proof {
                lemma_key_decided(a, b, 5, r);
            }
            return r;
        }
        let r = rank_flag(self.has_subtechniques, other.has_subtechniques);
        if r != Rank::Same {
            proof {
                lemma_key_decided(a, b, 6, r);
            }
            return r;
        }
        let r = rank_flag(self.is_revoked, other.is_revoked);
        if r != Rank::Same {
            proof {
                lemma_key_decided(a, b, 7, r);
            }
            return r;
        }
        let r = rank_flag(self.is_deprecated, other.is_deprecated);
        if r != Rank::Same {
            proof {
                lemma_key_decided(a, b, 8, r);
            }
            return r;
        }
        proof {
            lemma_key_same(a, b);
        }
        Rank::Same
    }

    fn duplicate(&self) -> (r: Self) {
        self.copy()
    }
}

/// A threat group with what it is known to use.
#[derive(Clone, Debug, PartialEq, Eq)]
pub struct EnterpriseAdversary {
    pub name: String,
    pub group_id: String,
    pub aliases: String,
    pub is_revoked: bool,
    pub tactics: Vec<String>,
    pub techniques: Vec<String>,
    pub subtechniques: Vec<String>,
    pub malware: Vec<String>,
    pub tools: Vec<String>,
}

/// What an adversary record holds, as mathematical values.
pub struct AdversaryView {
    pub name: Seq<char>,
    pub group_id: Seq<char>,
    pub aliases: Seq<char>,
    pub is_revoked: bool,
    pub tactics: Seq<Seq<char>>,
    pub techniques: Seq<Seq<char>>,
    pub subtechniques: Seq<Seq<char>>,
    pub malware: Seq<Seq<char>>,
    pub tools: Seq<Seq<char>>,
}

impl View for EnterpriseAdversary {
    type V = AdversaryView;

    open spec fn view(&self) -> AdversaryView {
        AdversaryView {
            name: self.name@,
            group_id: self.group_id@,
            aliases: self.aliases@,
            is_revoked: self.is_revoked,
            tactics: views(self.tactics@),
            techniques: views(self.techniques@),
            subtechniques: views(self.subtechniques@),
            malware: views(self.malware@),
            tools: views(self.tools@),
        }
    }
}

/// The key of an adversary record: its name first, then all it holds.
pub open spec fn adversary_key(a: AdversaryView) -> Seq<Seq<Seq<char>>> {
    seq![
        seq![a.name],
        seq![a.group_id],
        seq![a.aliases],
        seq![flag_text(a.is_revoked)],
        a.tactics,
        a.techniques,
        a.subtechniques,
        a.malware,
        a.tools,
    ]
}

impl Keyed for EnterpriseAdversary {
    open spec fn key_of(v: AdversaryView) -> Seq<Seq<Seq<char>>> {
        adversary_key(v)
    }

    proof fn lemma_key_of(a: AdversaryView, b: AdversaryView) {
        let x = adversary_key(a);
        let y = adversary_key(b);
        assert(x[0][0] == y[0][0]);
        assert(x[1][0] == y[1][0]);
        assert(x[2][0] == y[2][0]);
        assert(x[3][0] == y[3][0]);
        assert(x[4] == y[4]);
        assert(x[5] == y[5]);
        assert(x[6] == y[6]);
        assert(x[7] == y[7]);
        assert(x[8] == y[8]);
        lemma_flag_text(a.is_revoked, b.is_revoked);
    }

    fn rank(&self, other: &Self) -> (r: Rank) {
        let ghost a = adversary_key(self@);
        let ghost b = adversary_key(other@);
        let r = rank_single(self.name.as_str(), other.name.as_str());
        if r != Rank::Same {
            proof {
                lemma_key_decided(a, b, 0, r);
            }
            return r;
        }
        let r = rank_single(self.group_id.as_str(), other.group_id.as_str());
        if r != Rank::Same {
            proof {
                lemma_key_decided(a, b, 1, r);
            }
            return r;
        }
        let r = rank_single(self.aliases.as_str(), other.aliases.as_str());
        if r != Rank::Same {
            proof {
                lemma_key_decided(a, b, 2, r);
            }
            return r;
        }
        let r = rank_flag(self.is_revoked, other.is_revoked);
        if r != Rank::Same {
            proof {
                lemma_key_decided(a, b, 3, r);
            }
            return r;
        }
        let r = rank_lists(&self.tactics, &other.tactics);
        if r != Rank::Same {
            proof {
                lemma_key_decided(a, b, 4, r);
            }
            return r;
        }
        let r = rank_lists(&self.techniques, &other.techniques);
        if r != Rank::Same {
            proof {
                lemma_key_decided(a, b, 5, r);
            }
            return r;
        }
        let r = rank_lists(&self.subtechniques, &other.subtechniques);
        if r != Rank::Same {
            proof {
                lemma_key_decided(a, b, 6, r);
            }
            return r;
        }
        let r = rank_lists(&self.malware, &other.malware);
        if r != Rank::Same {
            proof {
                lemma_key_decided(a, b, 7, r);
            }
            return r;
        }
        let r = rank_lists(&self.tools, &other.tools);
        if r != Rank::Same {
            proof {
                lemma_key_decided(a, b, 8, r);
            }
            return r;
        }
        proof {
            lemma_key_same(a, b);
        }
        Rank::Same
    }

    fn duplicate(&self) -> (r: Self) {
        EnterpriseAdversary {
            name: self.name.clone(),
            group_id: self.group_id.clone(),
            aliases: self.aliases.clone(),
            is_revoked: self.is_revoked,
            tactics: copy_all(&self.tactics),
            techniques: copy_all(&self.techniques),
            subtechniques: copy_all(&self.subtechniques),
            malware: copy_all(&self.malware),
            tools: copy_all(&self.tools),
        }
    }
}

/// A piece of software, malware or tool, with the other names it goes by.
#[derive(Clone, Debug, PartialEq, Eq)]
pub struct EnterpriseWeapon {
    pub name: String,
    pub aliases: String,
}

/// What a software record holds, as mathematical values.
pub struct WeaponView {
    pub name: Seq<char>,
    pub aliases: Seq<char>,
}

impl View for EnterpriseWeapon {
    type V = WeaponView;

    open spec fn view(&self) -> WeaponView {
        WeaponView { name: self.name@, aliases: self.aliases@ }
    }
}

impl Keyed for EnterpriseWeapon {
    open spec fn key_of(v: WeaponView) -> Seq<Seq<Seq<char>>> {
        seq![seq![v.name], seq![v.aliases]]
    }

    proof fn lemma_key_of(a: WeaponView, b: WeaponView) {
        let x = Self::key_of(a);
        let y = Self::key_of(b);
        assert(x[0][0] == y[0][0]);
        assert(x[1][0] == y[1][0]);
    }

    fn rank(&self, other: &Self) -> (r: Rank) {
        let ghost a = Self::key_of(self@);
        let ghost b = Self::key_of(other@);
        let r = rank_single(self.name.as_str(), other.name.as_str());
        if r != Rank::Same {
            proof {
                lemma_key_decided(a, b, 0, r);
            }
            return r;
        }
        let r = rank_single(self.aliases.as_str(), other.aliases.as_str());
        if r != Rank::Same {
            proof {
                lemma_key_decided(a, b, 1, r);
            }
            return r;
        }
        proof {
            lemma_key_same(a, b);
        }
        Rank::Same
    }

    fn duplicate(&self) -> (r: Self) {
        EnterpriseWeapon { name: self.name.clone(), aliases: self.aliases.clone() }
    }
}

} // verus!
