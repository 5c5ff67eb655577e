use mitre_assistant::json::bundle_from_json;
use mitre_assistant::parser::{EnterpriseMatrixParser, MatrixError};
use mitre_assistant::bundle::MissingField;
use mitre_assistant::searcher::EnterpriseMatrixSearcher;

const BUNDLE: &str = r#"{
  "type": "bundle",
  "objects": [
    {
      "type": "attack-pattern",
      "name": "Foo",
      "external_references": [
        {"source_name": "mitre-attack", "external_id": "T1001"},
        {"source_name": "other", "external_id": "CAPEC-1"}
      ],
      "kill_chain_phases": [{"kill_chain_name": "mitre-attack", "phase_name": "initial-access"}],
      "x_mitre_platforms": ["Windows"],
      "x_mitre_data_sources": ["Process Monitoring"]
    },
    {
      "type": "attack-pattern",
      "name": "Foo: Bar",
      "external_references": [{"source_name": "mitre-attack", "external_id": "T1001.001"}],
      "kill_chain_phases": [{"kill_chain_name": "mitre-attack", "phase_name": "initial-access"}],
      "x_mitre_platforms": ["Windows"],
      "x_mitre_data_sources": ["Process Monitoring"]
    },
    {
      "type": "attack-pattern",
      "name": "Old",
      "revoked": true,
      "external_references": [{"source_name": "mitre-attack", "external_id": "T1002"}]
    },
    {"type": "malware", "name": "Emotet"},
    {"type": "relationship", "x_mitre_platforms": "none", "kill_chain_phases": [{"x": 1}]}
  ]
}"#;

#[test]
fn a_bundle_document_is_read_object_by_object() {
    let objects = bundle_from_json(BUNDLE.as_bytes()).expect("a bundle");
    assert_eq!(objects.len(), 5);
    let first = &objects[0];
    assert_eq!(first.kind, "attack-pattern");
    assert_eq!(first.external_id.as_deref(), Some("T1001"));
    assert_eq!(first.name.as_deref(), Some("Foo"));
    assert_eq!(first.kill_chain_phases, Some(vec!["initial-access".to_string()]));
    assert_eq!(first.platforms, Some(vec!["Windows".to_string()]));
    assert_eq!(first.data_sources, Some(vec!["Process Monitoring".to_string()]));
    assert_eq!(
        first.serialized,
        "{\"external_references\":[{\"external_id\":\"T1001\",\"source_name\":\"mitre-attack\"},{\"external_id\":\"CAPEC-1\",\"source_name\":\"other\"}],\"kill_chain_phases\":[{\"kill_chain_name\":\"mitre-attack\",\"phase_name\":\"initial-access\"}],\"name\":\"Foo\",\"type\":\"attack-pattern\",\"x_mitre_data_sources\":[\"Process Monitoring\"],\"x_mitre_platforms\":[\"Windows\"]}"
    );
    let revoked = &objects[2];
    assert!(revoked.serialized.contains("revoked"));
    assert_eq!(revoked.kill_chain_phases, None);
    assert_eq!(revoked.platforms, None);
    assert_eq!(revoked.data_sources, None);
    let malware = &objects[3];
    assert_eq!(malware.kind, "malware");
    assert_eq!(malware.external_id, None);
    assert_eq!(malware.name.as_deref(), Some("Emotet"));
    // a list that holds something else than names counts as none
    let odd = &objects[4];
    assert_eq!(odd.platforms, None);
    assert_eq!(odd.kill_chain_phases, None);
}

#[test]
fn what_is_no_bundle_document_is_refused() {
    assert!(bundle_from_json(b"").is_none());
    assert!(bundle_from_json(b"{").is_none());
    assert!(bundle_from_json(b"[]").is_none());
    assert!(bundle_from_json(b"{\"objects\": 3}").is_none());
    assert!(bundle_from_json(b"{\"things\": []}").is_none());
    assert!(bundle_from_json(b"{\"objects\": [{\"name\": \"x\"}]}").is_none());
    assert!(bundle_from_json(b"{\"objects\": [{\"type\": 1}]}").is_none());
    assert!(bundle_from_json(b"{\"objects\": [3]}").is_none());
    assert_eq!(bundle_from_json(b"{\"objects\": []}").map(|o| o.len()), Some(0));
    assert_eq!(bundle_from_json(b" {\"objects\": [{\"type\": \"x\"}]} ").map(|o| o.len()), Some(1));
}

#[test]
fn end_to_end_from_a_document() {
    let objects = bundle_from_json(BUNDLE.as_bytes()).expect("a bundle");
    let mut parser = EnterpriseMatrixParser::new();
    assert_eq!(parser.baseline("enterprise", &objects), Ok(()));
    let d = &parser.details;
    assert_eq!(d.breakdown_techniques.len(), 1);
    assert_eq!(d.breakdown_techniques[0].tid, "T1001");
    assert!(d.breakdown_techniques[0].has_subtechniques);
    assert_eq!(d.breakdown_techniques[0].subtechniques, vec!["T1001.001"]);
    assert_eq!(d.breakdown_subtechniques.len(), 1);
    assert_eq!(d.revoked_techniques, vec![("T1002".to_string(), "Old".to_string())]);
    assert_eq!(d.stats.count_malwares, 1);
    assert_eq!(d.platforms, vec!["windows"]);
    assert_eq!(d.datasources, vec!["process-monitoring"]);
    let windows = d.stats.techniques_by_platform.iter().find(|r| r.name == "windows").unwrap();
    assert_eq!((windows.count, windows.percent.as_str()), (1, "100%"));
    let found = parser.details.search_by_id("T1001", true);
    let ids: Vec<&str> = found.iter().map(|t| t.tid.as_str()).collect();
    assert_eq!(ids, vec!["T1001", "T1001.001"]);
    let found = parser.details.search_by_id("t1002", true);
    let searcher = EnterpriseMatrixSearcher::new("enterprise", Some(parser.details));
    assert_eq!(searcher.search("T1001", true).map(|r| r.len()), Ok(1));
    assert_eq!(found.len(), 1);
    assert!(found[0].is_revoked);
}

#[test]
fn a_phase_without_a_name_makes_the_phases_missing() {
    let text = r#"{"objects": [
        {"type": "malware"},
        {"type": "attack-pattern", "name": "Foo",
         "external_references": [{"external_id": "T1001"}],
         "kill_chain_phases": [{"phase_name": "execution"}, {"kill_chain_name": "mitre-attack"}]}
    ]}"#;
    let objects = bundle_from_json(text.as_bytes()).expect("a bundle");
    let mut parser = EnterpriseMatrixParser::new();
    assert_eq!(
        parser.baseline("enterprise", &objects),
        Err(MatrixError::MalformedInput { object: 1, field: MissingField::KillChainPhases })
    );
    let text = r#"{"objects": [
        {"type": "attack-pattern", "name": "Foo", "external_references": [],
         "kill_chain_phases": []}
    ]}"#;
    let objects = bundle_from_json(text.as_bytes()).expect("a bundle");
    assert_eq!(
        parser.baseline("enterprise", &objects),
        Err(MatrixError::MalformedInput { object: 0, field: MissingField::ExternalId })
    );
}
