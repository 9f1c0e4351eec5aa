use diag_adapter::sdg::SdMappingsTruthyValue;

/// Reads a mapping the way its deserialization does: the fields of the JSON object, then
/// `SdMappingsTruthyValue::new`.
fn mapping_from_json(json: &str) -> SdMappingsTruthyValue {
    let v: serde_json::Value = serde_json::from_str(json).unwrap();
    let values: Vec<String> = v["values"]
        .as_array()
        .unwrap()
        .iter()
        .map(|x| x.as_str().unwrap().to_owned())
        .collect();
    let ignore_case = v["ignore_case"].as_bool().unwrap();
    SdMappingsTruthyValue::new(values, ignore_case)
}

fn holds(mapping: &SdMappingsTruthyValue, value: &str) -> bool {
    mapping.values().iter().any(|v| v == value)
}

#[test]
fn deserialized_ignore_case_lowercases_values() {
    let json = r#"{"values": ["Flux Capacitor Mark II", "Enabled"], "ignore_case": true}"#;
    let mapping = mapping_from_json(json);
    // Values should have been lowercased during deserialization
    assert!(holds(&mapping, "flux capacitor mark ii"));
    assert!(holds(&mapping, "enabled"));
    assert!(!holds(&mapping, "Flux Capacitor Mark II"));
    assert!(!holds(&mapping, "Enabled"));
}

#[test]
fn deserialized_case_sensitive_preserves_values() {
    let json = r#"{"values": ["Flux Capacitor Mark II", "Enabled"], "ignore_case": false}"#;
    let mapping = mapping_from_json(json);
    assert!(holds(&mapping, "Flux Capacitor Mark II"));
    assert!(holds(&mapping, "Enabled"));
}

#[test]
fn contains_matches_case_insensitive_after_deserialization() {
    let json = r#"{"values": ["Flux Capacitor Mark II", "Plutonium"], "ignore_case": true}"#;
    let mapping = mapping_from_json(json);
    // Should match regardless of input case
    assert!(mapping.contains("flux capacitor mark ii"));
    assert!(mapping.contains("Flux Capacitor Mark II"));
    assert!(mapping.contains("FLUX CAPACITOR MARK II"));
    assert!(mapping.contains("plutonium"));
    assert!(mapping.contains("Plutonium"));
    assert!(!mapping.contains("Mr. Fusion"));
}

#[test]
fn contains_matches_case_sensitive_after_deserialization() {
    let json = r#"{"values": ["Plutonium", "Mr. Fusion"], "ignore_case": false}"#;
    let mapping = mapping_from_json(json);
    assert!(mapping.contains("Plutonium"));
    assert!(!mapping.contains("plutonium"));
    assert!(mapping.contains("Mr. Fusion"));
    assert!(!mapping.contains("mr. fusion"));
}

#[test]
fn ignore_case_leaves_non_ascii_letters_alone() {
    let mapping = SdMappingsTruthyValue::new(vec!["Ärger".to_owned()], true);
    assert!(holds(&mapping, "Ärger"));
    assert!(mapping.contains("ÄRGER"));
    assert!(!mapping.contains("ärger"));
    assert!(mapping.ignore_case());
}
