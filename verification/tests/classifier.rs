use credfile::draft::AwsProfileCredential;
use credfile::line::{
    extract_value_from, get_profile_name_from, is_aws_access_key, is_aws_secret_key, is_aws_token,
    is_comment_or_empty, is_profile, str_contains, to_ascii_lower, trim,
};
use credfile::parser::{
    try_assign_aws_profile_credential_from, try_insert_profile_credential_to, validate_path_kind,
    ParseError,
};
use credfile::profile_map::ProfileMap;

#[test]
fn trim_strips_both_ends() {
    assert_eq!(trim("  hello \t"), "hello");
    assert_eq!(trim("hello"), "hello");
    assert_eq!(trim(" \t "), "");
    assert_eq!(trim(""), "");
}

#[test]
fn lowercase_maps_ascii_letters_only() {
    assert_eq!(to_ascii_lower("AWS_Access_Key_ID"), "aws_access_key_id");
    assert_eq!(to_ascii_lower("abc123!"), "abc123!");
}

#[test]
fn substring_search_finds_runs() {
    assert!(str_contains("aws_access_key_id = x", "aws_access_key_id"));
    assert!(!str_contains("aws_access_key", "aws_access_key_id"));
    assert!(str_contains("anything", ""));
}

#[test]
fn comment_and_blank_detection() {
    assert!(is_comment_or_empty(""));
    assert!(is_comment_or_empty("   "));
    assert!(is_comment_or_empty("# comment"));
    assert!(is_comment_or_empty("  ; comment"));
    assert!(!is_comment_or_empty("[default]"));
    assert!(!is_comment_or_empty("aws_access_key_id = x"));
}

#[test]
fn profile_header_detection() {
    assert!(is_profile("[default]"));
    assert!(is_profile("  [profile dev]  "));
    assert!(is_profile("[]"));
    assert!(!is_profile("default"));
    assert!(!is_profile("[unclosed"));
}

#[test]
fn profile_name_extraction() {
    assert_eq!(get_profile_name_from("[default]"), Some("default".to_string()));
    assert_eq!(get_profile_name_from(" [ spaced ] "), Some("spaced".to_string()));
    assert_eq!(get_profile_name_from("[profile dev]"), Some("dev".to_string()));
    assert_eq!(get_profile_name_from("[]"), None);
    assert_eq!(get_profile_name_from("[  ]"), None);
    assert_eq!(get_profile_name_from("no brackets"), None);
}

#[test]
fn value_extraction_splits_on_first_equals() {
    assert_eq!(extract_value_from("key = value"), Some("value".to_string()));
    assert_eq!(extract_value_from("key=a=b"), Some("a=b".to_string()));
    assert_eq!(extract_value_from("key ="), Some("".to_string()));
    assert_eq!(extract_value_from("no equals here"), None);
}

#[test]
fn key_predicates_match_their_field_names() {
    assert!(is_aws_access_key("aws_access_key_id = x"));
    assert!(!is_aws_access_key("aws_secret_access_key = x"));
    assert!(is_aws_secret_key("aws_secret_access_key = x"));
    assert!(!is_aws_secret_key("aws_access_key_id = x"));
    assert!(is_aws_token("aws_session_token = x"));
    assert!(is_aws_token("aws_security_token = x"));
    assert!(!is_aws_token("aws_access_key_id = x"));
}

#[test]
fn assignment_fills_only_unset_fields() {
    let draft = AwsProfileCredential::new();
    let draft = try_assign_aws_profile_credential_from("aws_access_key_id = one", draft);
    assert_eq!(draft.access_key, Some("one".to_string()));
    let draft = try_assign_aws_profile_credential_from("aws_access_key_id = two", draft);
    assert_eq!(draft.access_key, Some("one".to_string()));
    let draft = try_assign_aws_profile_credential_from("aws_session_token = tok", draft);
    assert_eq!(draft.token, Some("tok".to_string()));
    assert_eq!(draft.secret_key, None);
}

#[test]
fn commit_drops_incomplete_drafts() {
    let map = ProfileMap::new();
    let draft = AwsProfileCredential::new_with_profile_name("half".to_string());
    let draft = try_assign_aws_profile_credential_from("aws_access_key_id = a", draft);
    let map = try_insert_profile_credential_to(map, draft);
    assert_eq!(map.len(), 0);
    assert!(map.get("half").is_none());
}

#[test]
fn commit_keeps_complete_drafts() {
    let map = ProfileMap::new();
    let draft = AwsProfileCredential::new_with_profile_name("whole".to_string());
    let draft = try_assign_aws_profile_credential_from("aws_access_key_id = a", draft);
    let draft = try_assign_aws_profile_credential_from("aws_secret_access_key = b", draft);
    let map = try_insert_profile_credential_to(map, draft);
    assert_eq!(map.len(), 1);
    let record = map.get("whole").unwrap();
    assert_eq!(record.aws_access_key_id(), "a");
    assert_eq!(record.aws_secret_access_key(), "b");
    assert_eq!(record.token(), &None);
}

#[test]
fn path_validation_orders_its_checks() {
    assert_eq!(validate_path_kind(false, false).err(), Some(ParseError::PathNotFound));
    assert_eq!(validate_path_kind(true, false).err(), Some(ParseError::NotAFile));
    assert!(validate_path_kind(true, true).is_ok());
}

#[test]
fn map_replaces_records_under_the_same_name() {
    let map = ProfileMap::new();
    let first = AwsProfileCredential {
        profile_name: Some("p".to_string()),
        access_key: Some("a1".to_string()),
        secret_key: Some("s1".to_string()),
        token: None,
    };
    let second = AwsProfileCredential {
        profile_name: Some("p".to_string()),
        access_key: Some("a2".to_string()),
        secret_key: Some("s2".to_string()),
        token: Some("t2".to_string()),
    };
    let map = try_insert_profile_credential_to(map, first);
    let map = try_insert_profile_credential_to(map, second);
    assert_eq!(map.len(), 1);
    let record = map.get("p").unwrap();
    assert_eq!(record.aws_access_key_id(), "a2");
    assert_eq!(record.aws_secret_access_key(), "s2");
    assert_eq!(record.token(), &Some("t2".to_string()));
}

#[test]
fn map_entries_come_back_out() {
    let map = ProfileMap::new();
    let draft = AwsProfileCredential {
        profile_name: Some("only".to_string()),
        access_key: Some("a".to_string()),
        secret_key: Some("s".to_string()),
        token: None,
    };
    let map = try_insert_profile_credential_to(map, draft);
    let entries = map.into_entries();
    assert_eq!(entries.len(), 1);
    let (name, record) = entries.into_iter().next().unwrap();
    assert_eq!(name, "only");
    let (access, secret, token) = record.into_parts();
    assert_eq!(access, "a");
    assert_eq!(secret, "s");
    assert_eq!(token, None);
}
