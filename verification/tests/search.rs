use mitre_assistant::classifier::Category;
use mitre_assistant::enterprise::{EnterpriseAdversary, EnterpriseWeapon, EnterpriseTechnique};
use mitre_assistant::parser::{EnterpriseMatrixBreakdown, MatrixError};
use mitre_assistant::searcher::{is_mismatched, EnterpriseMatrixSearcher, QueryResult};

fn owned(items: &[&str]) -> Vec<String> {
    items.iter().map(|s| s.to_string()).collect()
}

fn record(
    tid: &str,
    name: &str,
    tactic: &str,
    platforms: &[&str],
    sources: &[&str],
    subs: &[&str],
) -> EnterpriseTechnique {
    let mut t = EnterpriseTechnique::new();
    t.tid = tid.to_string();
    t.technique = name.to_string();
    t.tactic = tactic.to_string();
    t.platforms = owned(platforms);
    t.datasources = owned(sources);
    t.subtechniques = owned(subs);
    t.has_subtechniques = !subs.is_empty();
    t
}

fn adversary(name: &str, gid: &str) -> EnterpriseAdversary {
    EnterpriseAdversary {
        name: name.to_string(),
        group_id: gid.to_string(),
        aliases: String::new(),
        is_revoked: false,
        tactics: Vec::new(),
        techniques: owned(&["T1059"]),
        subtechniques: Vec::new(),
        malware: Vec::new(),
        tools: Vec::new(),
    }
}

fn software(name: &str, aliases: &str) -> EnterpriseWeapon {
    EnterpriseWeapon { name: name.to_string(), aliases: aliases.to_string() }
}

fn snapshot() -> EnterpriseMatrixBreakdown {
    let mut b = EnterpriseMatrixBreakdown::new();
    b.tactics = owned(&["defense-evasion", "execution", "initial-access"]);
    b.platforms = owned(&["azure-ad", "linux", "windows"]);
    b.datasources = owned(&["file-monitoring", "process-monitoring"]);
    b.breakdown_techniques = vec![
        record("T1059", "Scripting", "execution", &["linux", "windows"], &["process-monitoring"], &["T1059.001"]),
        record("T1190", "Exploit Public-Facing Application", "initial-access", &["azure-ad"], &["file-monitoring"], &[]),
        record("T1059", "Scripting", "defense-evasion", &["linux", "windows"], &["process-monitoring"], &["T1059.001"]),
        record("T1027", "Obfuscated Files", "defense-evasion", &["windows"], &[], &[]),
        record("T1190", "Exploit Public-Facing Application", "initial-access", &["azure-ad"], &["file-monitoring"], &[]),
    ];
    b.breakdown_subtechniques = vec![
        record("T1059.001", "PowerShell", "execution", &["windows"], &["process-monitoring", "powershell-logs"], &[]),
        record("T1027.001", "Binary Padding", "defense-evasion", &["linux"], &[], &[]),
    ];
    b.uniques_techniques = owned(&["T1027", "T1059", "T1190"]);
    b.uniques_subtechniques = owned(&["T1027.001", "T1059.001"]);
    b.revoked_techniques = vec![
        ("T1002".to_string(), "Data Compressed".to_string()),
        ("T1000".to_string(), "Oldest".to_string()),
    ];
    b.deprecated_techniques = vec![("T1002".to_string(), "Data Compressed".to_string())];
    b.adversaries = owned(&["APT1", "Lazarus Group"]);
    b.malware = owned(&["Emotet"]);
    b.tools = owned(&["Mimikatz"]);
    b.breakdown_adversaries = vec![adversary("Lazarus Group", "G0032"), adversary("APT1", "G0006")];
    b.breakdown_malware = vec![software("Emotet", "Geodo"), software("Agent Tesla", "")];
    b.breakdown_tools = vec![software("Mimikatz", "")];
    b.stats = b.aggregate();
    b
}

fn searcher() -> EnterpriseMatrixSearcher {
    EnterpriseMatrixSearcher::new("Enterprise", Some(snapshot()))
}

fn ids(v: &Vec<EnterpriseTechnique>) -> Vec<(String, String)> {
    v.iter().map(|t| (t.tid.clone(), t.tactic.clone())).collect()
}

fn pair(a: &str, b: &str) -> (String, String) {
    (a.to_string(), b.to_string())
}

#[test]
fn searcher_keeps_the_snapshot_for_the_enterprise_matrix_only() {
    let s = searcher();
    assert_eq!(s.matrix, "enterprise");
    assert!(s.content.is_some());
    let other = EnterpriseMatrixSearcher::new("mobile", Some(snapshot()));
    assert_eq!(other.matrix, "mobile");
    assert!(other.content.is_none());
    assert_eq!(other.search("stats", false).err(), Some(MatrixError::MissingBaseline));
    let none = EnterpriseMatrixSearcher::new("enterprise", None);
    assert_eq!(none.search("t1059", true).err(), Some(MatrixError::MissingBaseline));
}

#[test]
fn by_id_gives_the_technique_and_its_subtechniques() {
    let s = snapshot();
    assert_eq!(
        ids(&s.search_by_id("t1059", false)),
        vec![pair("T1059", "defense-evasion"), pair("T1059", "execution")]
    );
    assert_eq!(
        ids(&s.search_by_id("T1059", true)),
        vec![pair("T1059", "defense-evasion"), pair("T1059", "execution"), pair("T1059.001", "execution")]
    );
    // stored twice, reported once
    assert_eq!(ids(&s.search_by_id("T1190", false)), vec![pair("T1190", "initial-access")]);
    // asking for subtechniques never hides a technique that has none
    assert_eq!(ids(&s.search_by_id("T1190", true)), vec![pair("T1190", "initial-access")]);
    assert!(s.search_by_id("T9999", false).is_empty());
}

#[test]
fn by_id_keeps_a_technique_without_subtechniques() {
    let mut b = EnterpriseMatrixBreakdown::new();
    b.breakdown_techniques =
        vec![record("T1002", "Bar", "execution", &["linux"], &["file-monitoring"], &[])];
    for wants in [false, true] {
        let found = b.search_by_id("T1002", wants);
        assert_eq!(ids(&found), vec![pair("T1002", "execution")]);
        assert!(!found[0].is_revoked && !found[0].is_deprecated);
    }
    // an active record is a match: what is revoked under the same identifier stays out
    b.revoked_techniques = vec![pair("T1002", "Old Bar")];
    b.deprecated_techniques = vec![pair("t1002", "Older Bar")];
    for wants in [false, true] {
        let found = b.search_by_id("t1002", wants);
        assert_eq!(ids(&found), vec![pair("T1002", "execution")]);
        assert!(!found[0].is_revoked && !found[0].is_deprecated);
    }
    // the subtechniques come with the technique, whatever the technique says of itself
    b.breakdown_subtechniques =
        vec![record("T1002.001", "Baz", "execution", &["linux"], &["file-monitoring"], &[])];
    assert_eq!(ids(&b.search_by_id("T1002", false)), vec![pair("T1002", "execution")]);
    assert_eq!(
        ids(&b.search_by_id("T1002", true)),
        vec![pair("T1002", "execution"), pair("T1002.001", "execution")]
    );
    // without an active record, both sets answer, one record for each entry
    let found = b.search_by_id("T1002.", true);
    assert!(found.is_empty());
    b.breakdown_techniques.clear();
    let found = b.search_by_id("T1002", true);
    assert_eq!(found.len(), 2);
    assert!(found.iter().all(|t| t.is_revoked != t.is_deprecated));
    assert_eq!(found.iter().filter(|t| t.is_revoked).count(), 1);
}

#[test]
fn by_id_falls_back_to_revoked_and_deprecated() {
    let s = snapshot();
    let found = s.search_by_id("t1002", false);
    assert_eq!(found.len(), 2);
    assert_eq!(found[0].tid, "T1002");
    assert_eq!(found[0].technique, "Data Compressed");
    assert!(found[0].is_deprecated && !found[0].is_revoked);
    assert!(found[1].is_revoked && !found[1].is_deprecated);
    assert!(found[1].platforms.is_empty() && found[1].tactic.is_empty());
    let found = s.search_by_id("T1000", true);
    assert_eq!(found.len(), 1);
    assert!(found[0].is_revoked);
}

#[test]
fn by_subtechnique_id_and_by_name() {
    let s = snapshot();
    assert_eq!(ids(&s.search_by_subtechnique_id("t1059.001")), vec![pair("T1059.001", "execution")]);
    assert!(s.search_by_subtechnique_id("t1059").is_empty());
    assert_eq!(
        ids(&s.search_by_name("OBFUSCATED")),
        vec![pair("T1027", "defense-evasion")]
    );
    assert_eq!(
        ids(&s.search_by_name("p")),
        vec![
            pair("T1027.001", "defense-evasion"),
            pair("T1059", "defense-evasion"),
            pair("T1059", "execution"),
            pair("T1059.001", "execution"),
            pair("T1190", "initial-access")
        ]
    );
    assert!(s.search_by_name("no such name").is_empty());
}

#[test]
fn by_tactic_and_by_platform() {
    let s = snapshot();
    assert_eq!(ids(&s.search_by_tactic("execution", false)), vec![pair("T1059", "execution")]);
    assert_eq!(
        ids(&s.search_by_tactic("execution", true)),
        vec![pair("T1059", "execution"), pair("T1059.001", "execution")]
    );
    assert_eq!(
        ids(&s.search_by_tactic("defense-evasion", true)),
        vec![pair("T1027", "defense-evasion"), pair("T1027.001", "defense-evasion"), pair("T1059", "defense-evasion")]
    );
    let on_linux = s.search_by_platform("linux", false);
    assert_eq!(ids(&on_linux), vec![pair("T1059", "defense-evasion"), pair("T1059", "execution")]);
    assert_eq!(on_linux[0].platforms, owned(&["linux"]));
    assert_eq!(on_linux[0].datasources, owned(&["process-monitoring"]));
    let with_subs = s.search_by_platform("linux", true);
    assert_eq!(with_subs.len(), 3);
    assert_eq!(with_subs[0].tid, "T1027.001");
    // a part of a platform name is enough
    assert_eq!(ids(&s.search_by_platform("azure", false)), vec![pair("T1190", "initial-access")]);
    assert_eq!(s.search_by_platform("azure", false)[0].platforms, owned(&["azure"]));
    assert!(s.search_by_platform("gcp", true).is_empty());
}

#[test]
fn by_datasource_alone_or_on_a_platform() {
    let s = snapshot();
    let found = s.search_by_datasource("process-monitoring", false);
    assert_eq!(ids(&found), vec![pair("T1059", "defense-evasion"), pair("T1059", "execution")]);
    assert_eq!(found[0].platforms, owned(&["n_a"]));
    assert_eq!(found[0].datasources, owned(&["process-monitoring"]));
    assert_eq!(found[0].subtechniques, owned(&["T1059.001"]));
    let found = s.search_by_datasource("windows:process-monitoring", true);
    assert_eq!(ids(&found), vec![pair("T1059.001", "execution")]);
    assert_eq!(found[0].platforms, owned(&["windows"]));
    assert_eq!(found[0].datasources, owned(&["process-monitoring"]));
    let found = s.search_by_datasource("powershell", true);
    assert_eq!(found.len(), 1);
    assert_eq!(found[0].datasources, owned(&["powershell"]));
    assert!(s.search_by_datasource("powershell", false).is_empty());
    assert!(s.search_by_datasource("aws:process-monitoring", false).len() == 2);
    let found = s.search_by_datasource("None:process-monitoring", false);
    assert_eq!(found.len(), 2);
    assert_eq!(found[0].platforms, owned(&["linux", "windows"]));
}

#[test]
fn a_datasource_must_go_with_the_platform() {
    assert!(is_mismatched("windows", "aws-cloudtrail-logs"));
    assert!(is_mismatched("linux", "azure-activity-logs"));
    assert!(is_mismatched("windows", "stack-driver-logs"));
    assert!(!is_mismatched("gcp", "stack-driver-logs"));
    assert!(!is_mismatched("n_a", "aws-cloudtrail-logs"));
    assert!(is_mismatched("aws", "windows-registry"));
    assert!(is_mismatched("saas", "wmi-objects"));
    assert!(!is_mismatched("linux", "bios"));
    assert!(is_mismatched("office-365", "anti-virus"));
    assert!(is_mismatched("windows", "office-365-audit-logs"));
    assert!(!is_mismatched("office-365", "office-365-audit-logs"));
    assert!(!is_mismatched("whatever", "process-monitoring"));
    let mut b = snapshot();
    b.breakdown_techniques.push(record("T1", "x", "impact", &["windows"], &["windows-registry"], &[]));
    let s = b;
    assert_eq!(s.search_by_datasource("windows:windows-registry", false).len(), 1);
    assert_eq!(s.search_by_datasource("windows-registry", false).len(), 1);
    assert!(s.search_by_datasource("aws:windows-registry", false).is_empty());
}

#[test]
fn derived_lookups() {
    let s = snapshot();
    assert_eq!(
        ids(&s.search_by_no_subtechniques()),
        vec![pair("T1027", "defense-evasion"), pair("T1190", "initial-access")]
    );
    assert_eq!(
        ids(&s.search_by_no_datasources()),
        vec![pair("T1027", "defense-evasion"), pair("T1027.001", "defense-evasion")]
    );
    assert_eq!(
        ids(&s.search_all_overlapped()),
        vec![pair("T1059", "defense-evasion"), pair("T1059", "execution")]
    );
    assert_eq!(
        ids(&s.search_all_techniques()),
        vec![
            pair("T1027", "defense-evasion"),
            pair("T1059", "defense-evasion"),
            pair("T1059", "execution"),
            pair("T1190", "initial-access")
        ]
    );
    assert_eq!(
        ids(&s.search_all_subtechniques()),
        vec![pair("T1027.001", "defense-evasion"), pair("T1059.001", "execution")]
    );
}

#[test]
fn set_lookups_come_sorted() {
    let mut b = snapshot();
    b.tactics = owned(&["execution", "defense-evasion", "execution"]);
    let s = b;
    assert_eq!(s.search_all_tactics(), owned(&["defense-evasion", "execution"]));
    assert_eq!(s.search_all_platforms(), owned(&["azure-ad", "linux", "windows"]));
    assert_eq!(s.search_all_datasources(), owned(&["file-monitoring", "process-monitoring"]));
    assert_eq!(
        s.search_revoked(),
        vec![pair("T1000", "Oldest"), pair("T1002", "Data Compressed")]
    );
    assert_eq!(s.search_by_deprecated(), vec![pair("T1002", "Data Compressed")]);
    let stats = s.search_stats();
    assert_eq!(stats.count_active_total_techniques, 4);
    assert_eq!(stats.count_revoked_techniques, 2);
}

#[test]
fn cross_tables_count_records() {
    let s = snapshot();
    let table = s.search_stats_datasources_and_platforms();
    assert_eq!(table.len(), 2);
    assert_eq!(table[0].datasource, "file-monitoring");
    let counts: Vec<(String, usize)> =
        table[0].counts.iter().map(|c| (c.category.clone(), c.count)).collect();
    assert_eq!(
        counts,
        vec![("azure-ad".to_string(), 2), ("linux".to_string(), 0), ("windows".to_string(), 0)]
    );
    let counts: Vec<usize> = table[1].counts.iter().map(|c| c.count).collect();
    assert_eq!(counts, vec![0, 2, 2]);
    let table = s.search_stats_datasources_and_tactics();
    assert_eq!(table[1].datasource, "process-monitoring");
    let counts: Vec<(String, usize)> =
        table[1].counts.iter().map(|c| (c.category.clone(), c.count)).collect();
    assert_eq!(
        counts,
        vec![
            ("defense-evasion".to_string(), 1),
            ("execution".to_string(), 1),
            ("initial-access".to_string(), 0)
        ]
    );
}

#[test]
fn entity_lookups() {
    let s = snapshot();
    let found = s.search_by_adversary("apt1");
    assert_eq!(found.len(), 1);
    assert_eq!(found[0].group_id, "G0006");
    assert_eq!(found[0].techniques, owned(&["T1059"]));
    assert!(s.search_by_adversary("apt").is_empty());
    let all: Vec<String> = s.search_all_adversaries().iter().map(|a| a.name.clone()).collect();
    assert_eq!(all, owned(&["APT1", "Lazarus Group"]));
    assert_eq!(s.search_by_malware("EMOTET")[0].aliases, "Geodo");
    assert!(s.search_by_malware("mimikatz").is_empty());
    assert_eq!(s.search_by_tool("mimikatz").len(), 1);
    let all: Vec<String> = s.search_all_malware().iter().map(|a| a.name.clone()).collect();
    assert_eq!(all, owned(&["Agent Tesla", "Emotet"]));
    assert_eq!(s.search_all_tools().len(), 1);
}

#[test]
fn dispatch_goes_by_category() {
    let s = snapshot();
    match s.dispatch(Category::Execution, "execution", true) {
        QueryResult::Techniques(v) => assert_eq!(v.len(), 2),
        other => panic!("unexpected {:?}", other),
    }
    match s.dispatch(Category::Windows, "windows", false) {
        QueryResult::Techniques(v) => assert_eq!(v.len(), 3),
        other => panic!("unexpected {:?}", other),
    }
    assert!(matches!(s.dispatch(Category::Stats, "stats", false), QueryResult::Stats(_)));
    assert!(matches!(s.dispatch(Category::Revoked, "revoked", false), QueryResult::Retired(v) if v.len() == 2));
    assert!(matches!(s.dispatch(Category::Deprecated, "deprecated", false), QueryResult::Retired(v) if v.len() == 1));
    assert!(matches!(s.dispatch(Category::Tactics, "tactics", false), QueryResult::Names(v) if v.len() == 3));
    assert!(matches!(s.dispatch(Category::Platforms, "platforms", false), QueryResult::Names(v) if v.len() == 3));
    assert!(matches!(s.dispatch(Category::Datasources, "datasources", false), QueryResult::Names(v) if v.len() == 2));
    assert!(matches!(s.dispatch(Category::XrefDatasourcesTactics, "", false), QueryResult::Cross(v) if v.len() == 2));
    assert!(matches!(s.dispatch(Category::XrefDatasourcesPlatforms, "", false), QueryResult::Cross(v) if v.len() == 2));
    assert!(matches!(s.dispatch(Category::Adversaries, "", false), QueryResult::Adversaries(v) if v.len() == 2));
    assert!(matches!(s.dispatch(Category::Adversary, "apt1", false), QueryResult::Adversaries(v) if v.len() == 1));
    assert!(matches!(s.dispatch(Category::AllMalware, "", false), QueryResult::Weapons(v) if v.len() == 2));
    assert!(matches!(s.dispatch(Category::Malware, "emotet", false), QueryResult::Weapons(v) if v.len() == 1));
    assert!(matches!(s.dispatch(Category::Tools, "", false), QueryResult::Weapons(v) if v.len() == 1));
    assert!(matches!(s.dispatch(Category::Tool, "mimikatz", false), QueryResult::Weapons(v) if v.len() == 1));
    assert!(matches!(s.dispatch(Category::Overlap, "", false), QueryResult::Techniques(v) if v.len() == 2));
    assert!(matches!(s.dispatch(Category::NoSubtechniques, "", false), QueryResult::Techniques(v) if v.len() == 2));
    assert!(matches!(s.dispatch(Category::NoDatasources, "", false), QueryResult::Techniques(v) if v.len() == 2));
    assert!(matches!(s.dispatch(Category::Techniques, "", false), QueryResult::Techniques(v) if v.len() == 4));
    assert!(matches!(s.dispatch(Category::Subtechniques, "", false), QueryResult::Techniques(v) if v.len() == 2));
    assert!(matches!(s.dispatch(Category::TechniqueId, "t1059", false), QueryResult::Techniques(v) if v.len() == 2));
    assert!(matches!(s.dispatch(Category::SubtechniqueId, "t1059.001", false), QueryResult::Techniques(v) if v.len() == 1));
    assert!(matches!(s.dispatch(Category::TechniqueName, "scripting", false), QueryResult::Techniques(v) if v.len() == 2));
    assert!(matches!(s.dispatch(Category::Datasource, "file-monitoring", false), QueryResult::Techniques(v) if v.len() == 1));
}

#[test]
fn search_answers_each_sub_term_in_order() {
    let s = searcher();
    let results = s.search("T1059 ", true).unwrap();
    assert_eq!(results.len(), 1);
    assert!(matches!(&results[0], QueryResult::Techniques(v) if v.len() == 3));
    let results = s.search("t1059,T1059.001,zzz,stats,t1059", false).unwrap();
    assert_eq!(results.len(), 5);
    assert!(matches!(&results[0], QueryResult::Techniques(v) if v.len() == 2));
    assert!(matches!(&results[1], QueryResult::Techniques(v) if v.len() == 1));
    assert!(matches!(&results[2], QueryResult::Techniques(v) if v.is_empty()));
    assert!(matches!(&results[3], QueryResult::Stats(_)));
    // no deduplication across sub-terms
    assert!(matches!(&results[4], QueryResult::Techniques(v) if v.len() == 2));
    let results = s.search("zzz-no-such-term", false).unwrap();
    assert_eq!(results.len(), 1);
    assert!(matches!(&results[0], QueryResult::Techniques(v) if v.is_empty()));
    let results = s.search("", false).unwrap();
    assert_eq!(results.len(), 1);
    assert!(matches!(&results[0], QueryResult::Techniques(v) if v.is_empty()));
    let results = s.search("Windows:Process-Monitoring", false).unwrap();
    assert!(matches!(&results[0], QueryResult::Techniques(v) if v.len() == 2 && v[0].platforms == vec!["windows"]));
    let results = s.search("Lazarus Group", false).unwrap();
    assert!(matches!(&results[0], QueryResult::Adversaries(v) if v.len() == 1));
}
