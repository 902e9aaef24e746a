use credfile::config::create_profile_config_map_from;

const DEFAULT: &str = "default";
const REGION: &str = "region";

fn lines(raw: &[&str]) -> Vec<String> {
    raw.iter().map(|l| l.to_string()).collect()
}

#[test]
fn parse_config_file_credential_process() {
    let input = lines(&[
        "[default]",
        "region = us-east-1",
        "credential_process = cat tests/sample-data/credential_process_sample_response",
        "",
        "[profile other]",
        "region = us-west-2",
    ]);
    let result = create_profile_config_map_from(&input);
    assert!(result.is_some());
    let profiles = result.unwrap();
    assert_eq!(profiles.len(), 2);
    let default_profile = profiles
        .get(DEFAULT)
        .expect("No Default profile in default_profile_credentials");
    assert_eq!(default_profile.get(REGION), Some(&"us-east-1".to_string()));
    assert_eq!(
        default_profile.get("credential_process"),
        Some(&"cat tests/sample-data/credential_process_sample_response".to_string())
    );
}

#[test]
fn config_sections_keep_their_own_settings() {
    let input = lines(&["[one]", "region = a", "[two]", "region = b"]);
    let profiles = create_profile_config_map_from(&input).unwrap();
    assert_eq!(profiles.len(), 2);
    assert_eq!(profiles.get("one").unwrap().get("region"), Some(&"a".to_string()));
    assert_eq!(profiles.get("two").unwrap().get("region"), Some(&"b".to_string()));
}

#[test]
fn config_keys_are_lowered_and_later_values_win() {
    let input = lines(&["[default]", "Region = first", "REGION = second"]);
    let profiles = create_profile_config_map_from(&input).unwrap();
    let settings = profiles.get(DEFAULT).unwrap();
    assert_eq!(settings.get("region"), Some(&"second".to_string()));
    assert_eq!(settings.get("Region"), None);
}

#[test]
fn config_with_no_sections_is_none() {
    assert!(create_profile_config_map_from(&lines(&[])).is_none());
    assert!(create_profile_config_map_from(&lines(&["# only a comment"])).is_none());
    assert!(create_profile_config_map_from(&lines(&["region = orphan"])).is_none());
}

#[test]
fn config_malformed_header_is_none() {
    let input = lines(&["[default]", "region = a", "[]"]);
    assert!(create_profile_config_map_from(&input).is_none());
}
