use mitre_assistant::bundle::{names_subtechnique, BundleObject, MissingField};
use mitre_assistant::enterprise::EnterpriseTechnique;
use mitre_assistant::ingest::{check_bundle, children_of, correlate_records, records_from};
use mitre_assistant::parser::{EnterpriseMatrixBreakdown, EnterpriseMatrixParser, MatrixError};
use mitre_assistant::stats::{count_pairs, CategoryCount, Selector};

fn owned(items: &[&str]) -> Vec<String> {
    items.iter().map(|s| s.to_string()).collect()
}

fn quoted(items: &[&str]) -> String {
    let parts: Vec<String> = items.iter().map(|s| format!("\"{}\"", s)).collect();
    format!("[{}]", parts.join(","))
}

fn attack_pattern(
    id: &str,
    name: &str,
    phases: &[&str],
    platforms: &[&str],
    sources: Option<&[&str]>,
) -> BundleObject {
    let phase_text: Vec<String> = phases
        .iter()
        .map(|p| format!("{{\"kill_chain_name\":\"mitre-attack\",\"phase_name\":\"{}\"}}", p))
        .collect();
    let source_text = match sources {
        Some(s) => format!(",\"x_mitre_data_sources\":{}", quoted(s)),
        None => String::new(),
    };
    let serialized = format!(
        "{{\"external_references\":[{{\"external_id\":\"{}\",\"source_name\":\"mitre-attack\"}}],\"kill_chain_phases\":[{}],\"name\":\"{}\",\"type\":\"attack-pattern\"{},\"x_mitre_platforms\":{}}}",
        id,
        phase_text.join(","),
        name,
        source_text,
        quoted(platforms)
    );
    BundleObject {
        kind: "attack-pattern".to_string(),
        serialized,
        external_id: Some(id.to_string()),
        name: Some(name.to_string()),
        kill_chain_phases: Some(owned(phases)),
        platforms: Some(owned(platforms)),
        data_sources: sources.map(|s| owned(s)),
    }
}

fn revoked_pattern(id: &str, name: &str) -> BundleObject {
    BundleObject {
        kind: "attack-pattern".to_string(),
        serialized: format!(
            "{{\"external_references\":[{{\"external_id\":\"{}\"}}],\"name\":\"{}\",\"revoked\":true,\"type\":\"attack-pattern\"}}",
            id, name
        ),
        external_id: Some(id.to_string()),
        name: Some(name.to_string()),
        kill_chain_phases: None,
        platforms: None,
        data_sources: None,
    }
}

fn other(kind: &str) -> BundleObject {
    BundleObject {
        kind: kind.to_string(),
        serialized: format!("{{\"type\":\"{}\"}}", kind),
        external_id: None,
        name: None,
        kill_chain_phases: None,
        platforms: None,
        data_sources: None,
    }
}

fn count_of(rows: &Vec<CategoryCount>, name: &str) -> (usize, String) {
    let row = rows.iter().find(|r| r.name == name).expect("category");
    (row.count, row.percent.clone())
}

fn end_to_end_bundle() -> Vec<BundleObject> {
    vec![
        attack_pattern("T1001", "Foo", &["initial-access"], &["Windows"], Some(&["Process Monitoring"])),
        attack_pattern(
            "T1001.001",
            "Foo: Bar",
            &["initial-access"],
            &["Windows"],
            Some(&["Process Monitoring"]),
        ),
    ]
}

#[test]
fn end_to_end_technique_with_subtechnique() {
    let mut parser = EnterpriseMatrixParser::new();
    assert_eq!(parser.baseline("enterprise", &end_to_end_bundle()), Ok(()));
    let details = &parser.details;
    assert_eq!(count_of(&details.stats.techniques_by_platform, "windows"), (1, "100%".to_string()));
    assert_eq!(
        count_of(&details.stats.techniques_by_tactic, "initial-access"),
        (1, "100%".to_string())
    );
    assert_eq!(count_of(&details.stats.techniques_by_platform, "linux"), (0, "0%".to_string()));
    assert_eq!(details.breakdown_techniques.len(), 1);
    let t = &details.breakdown_techniques[0];
    assert_eq!(t.tid, "T1001");
    assert_eq!(t.technique, "Foo");
    assert_eq!(t.tactic, "initial-access");
    assert_eq!(t.platforms, owned(&["windows"]));
    assert_eq!(t.datasources, owned(&["process-monitoring"]));
    assert!(t.has_subtechniques);
    assert_eq!(t.subtechniques, owned(&["T1001.001"]));
    assert_eq!(details.breakdown_subtechniques.len(), 1);
    assert_eq!(details.breakdown_subtechniques[0].tid, "T1001.001");
    assert!(!details.breakdown_subtechniques[0].has_subtechniques);
    assert_eq!(details.tactics, owned(&["initial-access"]));
    assert_eq!(details.platforms, owned(&["windows"]));
    assert_eq!(details.datasources, owned(&["process-monitoring"]));
    assert_eq!(details.uniques_techniques, owned(&["T1001"]));
    assert_eq!(details.uniques_subtechniques, owned(&["T1001.001"]));
    assert_eq!(parser.techniques, owned(&["T1001"]));
    assert_eq!(parser.subtechniques, owned(&["T1001.001"]));
    assert_eq!(details.stats.count_active_uniq_techniques, 1);
    assert_eq!(details.stats.count_active_uniq_subtechniques, 1);
    assert_eq!(details.stats.count_active_total_techniques, 1);
    assert_eq!(details.stats.count_active_total_subtechniques, 1);
    assert_eq!(details.stats.count_platforms, 1);
    assert_eq!(details.stats.count_tactics, 1);
    assert_eq!(details.stats.count_datasources, 1);
    assert_eq!(details.stats.techniques_by_platform.len(), 9);
    assert_eq!(details.stats.techniques_by_tactic.len(), 12);

    let found = parser.details.search_by_id("T1001", true);
    assert_eq!(found.len(), 2);
    assert_eq!(found[0].tid, "T1001");
    assert_eq!(found[1].tid, "T1001.001");
}

#[test]
fn ingesting_twice_gives_the_same_snapshot() {
    let mut bundle = end_to_end_bundle();
    bundle.push(attack_pattern(
        "T1059",
        "Scripting",
        &["execution", "defense-evasion"],
        &["Linux", "macOS", "Windows"],
        Some(&["Process Monitoring", "File Monitoring"]),
    ));
    bundle.push(revoked_pattern("T1002", "Old"));
    bundle.push(other("malware"));
    let mut first = EnterpriseMatrixParser::new();
    let mut second = EnterpriseMatrixParser::new();
    assert_eq!(first.baseline("enterprise", &bundle), Ok(()));
    assert_eq!(second.baseline("enterprise", &bundle), Ok(()));
    assert_eq!(first, second);
    // a second ingestion replaces the snapshot and does not add to it
    assert_eq!(first.baseline("enterprise", &bundle), Ok(()));
    assert_eq!(first, second);
}

#[test]
fn scan_fills_sets_lists_and_counters() {
    let bundle = vec![
        other("tool"),
        attack_pattern(
            "T1059",
            "Scripting",
            &["execution", "defense-evasion"],
            &["Linux", "macOS", "Windows"],
            Some(&["Process Monitoring", "File/Dir Monitoring"]),
        ),
        other("malware"),
        other("malware"),
        revoked_pattern("T1002", "Old"),
        other("intrusion-set"),
        attack_pattern("T1190", "Exploit", &["initial-access"], &["Azure AD"], None),
        attack_pattern("T1059.001", "PowerShell", &["execution"], &["Windows"], Some(&["PowerShell Logs"])),
        attack_pattern("T1003", "Dumping", &["credential-access"], &["Windows"], Some(&[])),
        other("x-mitre-tactic"),
        attack_pattern("T1059", "Scripting", &["execution"], &["Windows"], Some(&["Process Monitoring"])),
    ];
    let mut parser = EnterpriseMatrixParser::new();
    assert_eq!(parser.baseline_enterprise(&bundle), Ok(()));
    let d = &parser.details;
    assert_eq!(
        d.tactics,
        owned(&["credential-access", "defense-evasion", "execution", "initial-access"])
    );
    assert_eq!(d.platforms, owned(&["azure-ad", "linux", "macos", "windows"]));
    assert_eq!(
        d.datasources,
        owned(&["file-dir-monitoring", "powershell-logs", "process-monitoring"])
    );
    assert_eq!(d.revoked_techniques, vec![("T1002".to_string(), "Old".to_string())]);
    assert!(d.deprecated_techniques.is_empty());
    let tids: Vec<&str> = d.breakdown_techniques.iter().map(|t| t.tid.as_str()).collect();
    assert_eq!(tids, vec!["T1059", "T1059", "T1003", "T1059"]);
    let tactics: Vec<&str> = d.breakdown_techniques.iter().map(|t| t.tactic.as_str()).collect();
    assert_eq!(tactics, vec!["execution", "defense-evasion", "credential-access", "execution"]);
    assert_eq!(d.breakdown_techniques[0].subtechniques, owned(&["T1059.001"]));
    assert!(d.breakdown_techniques[0].has_subtechniques);
    assert!(d.breakdown_techniques[2].subtechniques.is_empty());
    assert!(!d.breakdown_techniques[2].has_subtechniques);
    assert!(d.breakdown_techniques[2].datasources.is_empty());
    assert_eq!(d.breakdown_subtechniques.len(), 1);
    assert_eq!(d.uniques_techniques, owned(&["T1003", "T1059"]));
    assert_eq!(d.uniques_subtechniques, owned(&["T1059.001"]));
    assert_eq!(d.stats.count_malwares, 2);
    assert_eq!(d.stats.count_adversaries, 1);
    assert_eq!(d.stats.count_tools, 1);
    assert_eq!(d.stats.count_revoked_techniques, 1);
    assert_eq!(d.stats.count_deprecated_techniques, 0);
    assert_eq!(d.stats.count_tactics, 4);
    assert_eq!(d.stats.count_platforms, 4);
    assert_eq!(d.stats.count_datasources, 3);
    assert_eq!(d.stats.count_active_uniq_techniques, 2);
    // T1059 under execution twice counts once
    assert_eq!(d.stats.count_active_total_techniques, 3);
    assert_eq!(count_of(&d.stats.techniques_by_platform, "windows"), (3, "100%".to_string()));
    assert_eq!(count_of(&d.stats.techniques_by_platform, "linux"), (2, "66%".to_string()));
    assert_eq!(count_of(&d.stats.techniques_by_platform, "azure-ad"), (0, "0%".to_string()));
    assert_eq!(count_of(&d.stats.techniques_by_tactic, "execution"), (1, "33%".to_string()));
    assert_eq!(count_of(&d.stats.subtechniques_by_platform, "windows"), (1, "100%".to_string()));
    assert_eq!(count_of(&d.stats.subtechniques_by_tactic, "execution"), (1, "100%".to_string()));
    assert_eq!(count_of(&d.stats.subtechniques_by_tactic, "impact"), (0, "0%".to_string()));
}

#[test]
fn per_platform_counts_sum_to_no_less_than_the_distinct_techniques() {
    let bundle = vec![
        attack_pattern("T1", "a", &["execution", "impact"], &["Linux", "Windows"], Some(&["x"])),
        attack_pattern("T2", "b", &["execution"], &["Windows"], Some(&["x"])),
        attack_pattern("T3", "c", &["discovery"], &["AWS", "GCP", "Azure"], Some(&["x"])),
    ];
    let mut parser = EnterpriseMatrixParser::new();
    assert_eq!(parser.baseline("enterprise", &bundle), Ok(()));
    let stats = &parser.details.stats;
    let sum: usize = stats.techniques_by_platform.iter().map(|r| r.count).sum();
    assert_eq!(sum, 8);
    assert_eq!(stats.count_active_uniq_techniques, 3);
    assert!(sum >= stats.count_active_uniq_techniques);
}

#[test]
fn a_missing_field_stops_ingestion_and_leaves_no_partial_snapshot() {
    let mut no_id = attack_pattern("T1", "a", &["execution"], &["Linux"], Some(&["x"]));
    no_id.external_id = None;
    let mut no_name = attack_pattern("T2", "b", &["execution"], &["Linux"], Some(&["x"]));
    no_name.name = None;
    let mut no_phases = attack_pattern("T3", "c", &["execution"], &["Linux"], Some(&["x"]));
    no_phases.kill_chain_phases = None;
    let mut revoked_no_name = revoked_pattern("T4", "d");
    revoked_no_name.name = None;
    let good = attack_pattern("T5", "e", &["execution"], &["Linux"], Some(&["x"]));

    let cases = vec![
        (no_id, MissingField::ExternalId),
        (no_name, MissingField::Name),
        (no_phases, MissingField::KillChainPhases),
        (revoked_no_name, MissingField::Name),
    ];
    for (bad, field) in cases {
        let bundle = vec![other("malware"), good.clone(), bad, good.clone()];
        assert_eq!(check_bundle(&bundle), Some((2, field)));
        let mut parser = EnterpriseMatrixParser::new();
        assert_eq!(
            parser.baseline("enterprise", &bundle),
            Err(MatrixError::MalformedInput { object: 2, field: field })
        );
        assert_eq!(parser, EnterpriseMatrixParser::new());
    }
    // a revoked pattern needs no kill-chain phases; other objects need nothing
    let fine = vec![revoked_pattern("T4", "d"), other("tool"), good.clone()];
    assert_eq!(check_bundle(&fine), None);
}

#[test]
fn another_matrix_is_left_alone() {
    let mut parser = EnterpriseMatrixParser::new();
    assert_eq!(parser.baseline("mobile", &end_to_end_bundle()), Ok(()));
    assert_eq!(parser, EnterpriseMatrixParser::new());
    assert_eq!(parser.baseline("Enterprise", &end_to_end_bundle()), Ok(()));
    assert_eq!(parser, EnterpriseMatrixParser::new());
    let mut broken = attack_pattern("T1", "a", &["execution"], &["Linux"], Some(&["x"]));
    broken.name = None;
    assert_eq!(parser.baseline("mobile", &vec![broken]), Ok(()));
}

#[test]
fn an_empty_bundle_gives_an_empty_snapshot_with_counts() {
    let mut parser = EnterpriseMatrixParser::new();
    assert_eq!(parser.baseline("enterprise", &Vec::new()), Ok(()));
    let d = &parser.details;
    assert!(d.breakdown_techniques.is_empty());
    assert_eq!(d.stats.techniques_by_platform.len(), 9);
    assert_eq!(count_of(&d.stats.techniques_by_platform, "aws"), (0, "0%".to_string()));
    assert_eq!(d.stats.count_active_total_techniques, 0);
}

#[test]
fn subtechnique_identifiers_are_told_by_their_shape() {
    assert!(names_subtechnique("{\"external_id\":\"T1001.001\"}"));
    assert!(names_subtechnique("T1234.567"));
    assert!(!names_subtechnique("{\"external_id\":\"T1001\"}"));
    assert!(!names_subtechnique("T1001.01"));
    assert!(!names_subtechnique("t1001.001"));
    assert!(!names_subtechnique("T100a.001"));
    assert!(!names_subtechnique(""));
    assert!(names_subtechnique("xxT1001T1001.0012"));
}

#[test]
fn records_of_an_object_follow_its_phases() {
    let o = attack_pattern(
        "T1059",
        "Scripting",
        &["execution", "defense-evasion"],
        &["Linux", "Windows"],
        Some(&["Process Monitoring"]),
    );
    let records = records_from(&o);
    assert_eq!(records.len(), 2);
    assert_eq!(records[0].tactic, "execution");
    assert_eq!(records[1].tactic, "defense-evasion");
    assert_eq!(records[1].tid, "T1059");
    assert_eq!(records[1].platforms, owned(&["linux", "windows"]));
    assert!(!records[1].has_subtechniques);
}

#[test]
fn subtechniques_are_attached_by_prefix() {
    let subs = owned(&["T1001.001", "T1001.002", "T1002.001", "XT1001.003"]);
    assert_eq!(children_of("T1001", &subs), owned(&["T1001.001", "T1001.002"]));
    assert_eq!(children_of("T1003", &subs), Vec::<String>::new());
    let mut a = EnterpriseTechnique::new();
    a.tid = "T1002".to_string();
    let mut b = EnterpriseTechnique::new();
    b.tid = "T1009".to_string();
    b.has_subtechniques = true;
    b.subtechniques = owned(&["stale"]);
    let out = correlate_records(&vec![a, b], &subs);
    assert_eq!(out[0].subtechniques, owned(&["T1002.001"]));
    assert!(out[0].has_subtechniques);
    assert!(out[1].subtechniques.is_empty());
    assert!(!out[1].has_subtechniques);
}

#[test]
fn pairs_are_counted_once_each() {
    let mut records = Vec::new();
    for (tid, tactic, platforms) in [
        ("T1", "execution", vec!["linux"]),
        ("T1", "execution", vec!["windows"]),
        ("T1", "impact", vec!["linux"]),
        ("T2", "execution", vec!["azure-ad"]),
    ] {
        let mut t = EnterpriseTechnique::new();
        t.tid = tid.to_string();
        t.tactic = tactic.to_string();
        t.platforms = platforms.iter().map(|s| s.to_string()).collect();
        records.push(t);
    }
    assert_eq!(count_pairs(&records, &Selector::Every), 3);
    assert_eq!(count_pairs(&records, &Selector::Platform("linux".to_string())), 2);
    assert_eq!(count_pairs(&records, &Selector::Platform("windows".to_string())), 1);
    // membership in the platform set, not a part of a name
    assert_eq!(count_pairs(&records, &Selector::Platform("azure".to_string())), 0);
    assert_eq!(count_pairs(&records, &Selector::Tactic("execution".to_string())), 2);
    assert_eq!(count_pairs(&records, &Selector::Tactic("exec".to_string())), 0);
    assert_eq!(count_pairs(&Vec::new(), &Selector::Every), 0);
}

#[test]
fn aggregate_counts_afresh() {
    let mut b = EnterpriseMatrixBreakdown::new();
    let mut t = EnterpriseTechnique::new();
    t.tid = "T1".to_string();
    t.tactic = "impact".to_string();
    t.platforms = owned(&["saas"]);
    b.breakdown_techniques.push(t);
    b.tactics = owned(&["impact"]);
    b.stats.count_malwares = 7;
    b.stats.count_tactics = 99;
    let stats = b.aggregate();
    assert_eq!(stats.count_malwares, 7);
    assert_eq!(stats.count_tactics, 1);
    assert_eq!(stats.count_active_total_techniques, 1);
    assert_eq!(count_of(&stats.techniques_by_platform, "saas"), (1, "100%".to_string()));
    assert_eq!(count_of(&stats.techniques_by_tactic, "impact"), (1, "100%".to_string()));
    let mut parser = EnterpriseMatrixParser::new();
    parser.details = b;
    parser.extract_stats_techniques_by_totals();
    parser.extract_stats_techniques_by_platforms(false);
    parser.extract_stats_techniques_by_platforms(true);
    parser.extract_stats_techniques_by_killchain(false);
    parser.extract_stats_techniques_by_killchain(true);
    assert_eq!(parser.details.stats.count_active_total_techniques, 1);
    assert_eq!(parser.details.stats.count_tactics, 99);
    assert_eq!(count_of(&parser.details.stats.techniques_by_platform, "saas").0, 1);
    assert_eq!(count_of(&parser.details.stats.subtechniques_by_platform, "saas").0, 0);
    assert_eq!(count_of(&parser.details.stats.techniques_by_tactic, "impact").0, 1);
    assert_eq!(count_of(&parser.details.stats.subtechniques_by_tactic, "impact").0, 0);
    assert_eq!(parser.get_percentage(0, 0), "0%");
    assert_eq!(parser.get_percentage(8, 2), "25%");
}
