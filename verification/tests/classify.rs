use mitre_assistant::classifier::{keyword, Category, Classification, TermClassifier};
use mitre_assistant::enterprise::EnterpriseTechnique;
use mitre_assistant::parser::EnterpriseMatrixBreakdown;

fn technique(tid: &str, name: &str) -> EnterpriseTechnique {
    let mut t = EnterpriseTechnique::new();
    t.tid = tid.to_string();
    t.technique = name.to_string();
    t.tactic = "initial-access".to_string();
    t
}

fn sample() -> TermClassifier {
    let mut b = EnterpriseMatrixBreakdown::new();
    b.datasources = vec!["process-monitoring".to_string(), "windows-registry".to_string()];
    b.platforms = vec!["linux".to_string(), "windows".to_string()];
    b.adversaries = vec!["APT1".to_string(), "Stats".to_string()];
    b.malware = vec!["Emotet".to_string()];
    b.tools = vec!["Mimikatz".to_string()];
    b.breakdown_techniques.push(technique("T1001", "Data Obfuscation"));
    b.breakdown_subtechniques.push(technique("T1001.001", "Junk Data"));
    TermClassifier::new(&b)
}

fn single(c: &Classification) -> Option<(String, Category)> {
    match c {
        Classification::Single(term, category) => Some((term.clone(), *category)),
        _ => None,
    }
}

#[test]
fn registries_are_taken_from_the_snapshot() {
    let c = sample();
    assert_eq!(c.datasources, vec!["process-monitoring", "windows-registry"]);
    assert_eq!(c.platforms, vec!["linux", "windows"]);
    assert_eq!(c.adversaries, vec!["apt1", "stats"]);
    assert_eq!(c.malware, vec!["emotet"]);
    assert_eq!(c.tools, vec!["mimikatz"]);
    assert_eq!(c.names, vec!["data obfuscation", "junk data"]);
}

#[test]
fn stats_is_classified_whatever_the_case() {
    let c = sample();
    assert_eq!(single(&c.classify("stats")), Some(("stats".to_string(), Category::Stats)));
    assert_eq!(single(&c.classify("STATS")), Some(("stats".to_string(), Category::Stats)));
    assert_eq!(single(&c.classify("Stats  \n")), Some(("stats".to_string(), Category::Stats)));
}

#[test]
fn comma_gives_sub_terms_each_classified_on_its_own() {
    let c = sample();
    match c.classify("t1021,t1021.001") {
        Classification::Composite(parts) => {
            assert_eq!(parts.len(), 2);
            assert_eq!(parts[0].term, "t1021");
            assert_eq!(parts[0].category, Some(Category::TechniqueId));
            assert_eq!(parts[1].term, "t1021.001");
            assert_eq!(parts[1].category, Some(Category::SubtechniqueId));
        }
        other => panic!("not composite: {:?}", other),
    }
    match c.classify("stats,zzz,APT1") {
        Classification::Composite(parts) => {
            assert_eq!(parts.len(), 3);
            assert_eq!(parts[0].category, Some(Category::Stats));
            assert_eq!(parts[1].category, None);
            assert_eq!(parts[2].category, Some(Category::Adversary));
        }
        other => panic!("not composite: {:?}", other),
    }
}

#[test]
fn empty_and_unknown_terms_match_nothing() {
    let c = sample();
    assert!(matches!(c.classify(""), Classification::NoMatch));
    assert!(matches!(c.classify("zzz-no-such-term"), Classification::NoMatch));
    assert!(matches!(c.classify("   "), Classification::NoMatch));
    assert_eq!(c.classify_term(""), None);
    assert_eq!(c.classify_term("zzz-no-such-term"), None);
}

#[test]
fn every_reserved_word_has_its_category() {
    let words = [
        ("revoked", Category::Revoked),
        ("stats", Category::Stats),
        ("nosub", Category::NoSubtechniques),
        ("techniques", Category::Techniques),
        ("subtechniques", Category::Subtechniques),
        ("datasources", Category::Datasources),
        ("platforms", Category::Platforms),
        ("nodatasources", Category::NoDatasources),
        ("tactics", Category::Tactics),
        ("deprecated", Category::Deprecated),
        ("initial-access", Category::InitialAccess),
        ("execution", Category::Execution),
        ("persistence", Category::Persistence),
        ("privilege-escalation", Category::PrivilegeEscalation),
        ("defense-evasion", Category::DefenseEvasion),
        ("credential-access", Category::CredentialAccess),
        ("discovery", Category::Discovery),
        ("lateral-movement", Category::LateralMovement),
        ("collection", Category::Collection),
        ("command-and-control", Category::CommandAndControl),
        ("exfiltration", Category::Exfiltration),
        ("impact", Category::Impact),
        ("aws", Category::Aws),
        ("azure", Category::Azure),
        ("azure-ad", Category::AzureAd),
        ("gcp", Category::Gcp),
        ("linux", Category::Linux),
        ("macos", Category::Macos),
        ("office-365", Category::Office365),
        ("saas", Category::Saas),
        ("windows", Category::Windows),
        ("overlap", Category::Overlap),
        ("xref:datasources:platforms", Category::XrefDatasourcesPlatforms),
        ("xref:datasources:tactics", Category::XrefDatasourcesTactics),
        ("adversaries", Category::Adversaries),
        ("malware", Category::AllMalware),
        ("tools", Category::Tools),
    ];
    for (word, category) in words.iter() {
        assert_eq!(keyword(word), Some(*category));
    }
    assert_eq!(keyword("Stats"), None);
    assert_eq!(keyword(""), None);
    assert_eq!(keyword("stat"), None);
}

#[test]
fn category_codes_are_fixed_and_distinct() {
    assert_eq!(Category::TechniqueId.code(), 0);
    assert_eq!(Category::SubtechniqueId.code(), 1);
    assert_eq!(Category::TechniqueName.code(), 2);
    assert_eq!(Category::Revoked.code(), 3);
    assert_eq!(Category::Stats.code(), 4);
    assert_eq!(Category::Deprecated.code(), 12);
    assert_eq!(Category::InitialAccess.code(), 13);
    assert_eq!(Category::Impact.code(), 24);
    assert_eq!(Category::Aws.code(), 25);
    assert_eq!(Category::Windows.code(), 33);
    assert_eq!(Category::Overlap.code(), 34);
    assert_eq!(Category::XrefDatasourcesPlatforms.code(), 35);
    assert_eq!(Category::XrefDatasourcesTactics.code(), 36);
    assert_eq!(Category::Datasource.code(), 37);
    assert_eq!(Category::Adversary.code(), 38);
    assert_eq!(Category::Malware.code(), 39);
    assert_eq!(Category::Tool.code(), 40);
    assert_eq!(Category::Adversaries.code(), 41);
    assert_eq!(Category::AllMalware.code(), 42);
    assert_eq!(Category::Tools.code(), 43);
}

#[test]
fn rules_apply_in_their_order() {
    let c = sample();
    // a reserved word wins over an adversary of the same spelling
    assert_eq!(c.classify_term("stats"), Some(Category::Stats));
    assert_eq!(c.classify_term("process-monitoring"), Some(Category::Datasource));
    assert_eq!(c.classify_term("windows:process-monitoring"), Some(Category::Datasource));
    assert_eq!(c.classify_term("macos:process-monitoring"), None);
    assert_eq!(c.classify_term("windows:no-such-source"), None);
    assert_eq!(c.classify_term("apt1"), Some(Category::Adversary));
    assert_eq!(c.classify_term("emotet"), Some(Category::Malware));
    assert_eq!(c.classify_term("mimikatz"), Some(Category::Tool));
    assert_eq!(c.classify_term("t1001"), Some(Category::TechniqueId));
    assert_eq!(c.classify_term("t9999"), Some(Category::TechniqueId));
    assert_eq!(c.classify_term("t1001.001"), Some(Category::SubtechniqueId));
    assert_eq!(c.classify_term("t100"), None);
    assert_eq!(c.classify_term("t1001.01"), None);
    assert_eq!(c.classify_term("T1001"), None);
    assert_eq!(c.classify_term("obfus"), Some(Category::TechniqueName));
    assert_eq!(c.classify_term("junk data"), Some(Category::TechniqueName));
    assert_eq!(single(&c.classify("T1001")), Some(("t1001".to_string(), Category::TechniqueId)));
    assert_eq!(
        single(&c.classify("Data Obfuscation ")),
        Some(("data obfuscation".to_string(), Category::TechniqueName))
    );
}
