use credfile::parser::{parse_credentials_file, ParseError};

const DEFAULT: &str = "default";

fn lines(raw: &[&str]) -> Vec<String> {
    raw.iter().map(|l| l.to_string()).collect()
}

#[test]
fn parse_credentials_file_default_profile() {
    let input = lines(&["[default]", "aws_access_key_id = foo", "aws_secret_access_key = bar"]);
    let result = parse_credentials_file(&input);
    assert!(result.is_ok());

    let profiles = result.ok().unwrap();
    assert_eq!(profiles.len(), 1);

    let default_profile = profiles
        .get(DEFAULT)
        .expect("No Default profile in default_profile_credentials");
    assert_eq!(default_profile.aws_access_key_id(), "foo");
    assert_eq!(default_profile.aws_secret_access_key(), "bar");
}

#[test]
fn parse_credentials_file_multiple_profiles() {
    let input = lines(&[
        "[foo]",
        "aws_access_key_id = foo_access_key",
        "aws_secret_access_key = foo_secret_key",
        "",
        "[bar]",
        "aws_access_key_id = bar_access_key",
        "aws_secret_access_key = bar_secret_key",
    ]);
    let result = parse_credentials_file(&input);
    assert!(result.is_ok());

    let profiles = result.ok().unwrap();
    assert_eq!(profiles.len(), 2);

    let foo_profile = profiles
        .get("foo")
        .expect("No foo profile in multiple_profile_credentials");
    assert_eq!(foo_profile.aws_access_key_id(), "foo_access_key");
    assert_eq!(foo_profile.aws_secret_access_key(), "foo_secret_key");

    let bar_profile = profiles
        .get("bar")
        .expect("No bar profile in multiple_profile_credentials");
    assert_eq!(bar_profile.aws_access_key_id(), "bar_access_key");
    assert_eq!(bar_profile.aws_secret_access_key(), "bar_secret_key");
}

#[test]
fn parse_all_values_credentials_file() {
    let input = lines(&[
        "[default]",
        "aws_access_key_id = foo",
        "aws_secret_access_key = bar",
        "aws_session_token = baz",
    ]);
    let result = parse_credentials_file(&input);
    assert!(result.is_ok());

    let profiles = result.ok().unwrap();
    assert_eq!(profiles.len(), 1);

    let default_profile = profiles
        .get(DEFAULT)
        .expect("No default profile in full_profile_credentials");
    assert_eq!(default_profile.aws_access_key_id(), "foo");
    assert_eq!(default_profile.aws_secret_access_key(), "bar");
    assert_eq!(default_profile.token(), &Some("baz".to_string()));
}

#[test]
fn empty_file_yields_no_credentials_found() {
    let input: Vec<String> = Vec::new();
    let result = parse_credentials_file(&input);
    assert_eq!(result.err(), Some(ParseError::NoCredentialsFound));
}

#[test]
fn comment_only_file_yields_no_credentials_found() {
    let input = lines(&["# a comment", "; another comment", "   ", ""]);
    let result = parse_credentials_file(&input);
    assert_eq!(result.err(), Some(ParseError::NoCredentialsFound));
}

#[test]
fn incomplete_profiles_never_appear() {
    let input = lines(&[
        "[no_secret]",
        "aws_access_key_id = foo",
        "[no_access]",
        "aws_secret_access_key = bar",
        "[whole]",
        "aws_access_key_id = a",
        "aws_secret_access_key = b",
    ]);
    let profiles = parse_credentials_file(&input).unwrap();
    assert_eq!(profiles.len(), 1);
    assert!(profiles.get("no_secret").is_none());
    assert!(profiles.get("no_access").is_none());
    assert!(profiles.get("whole").is_some());
}

#[test]
fn empty_values_do_not_complete_a_profile() {
    let input = lines(&["[default]", "aws_access_key_id =", "aws_secret_access_key = bar"]);
    let result = parse_credentials_file(&input);
    assert_eq!(result.err(), Some(ParseError::NoCredentialsFound));
}

#[test]
fn first_write_wins_within_a_span() {
    let input = lines(&[
        "[default]",
        "aws_access_key_id = first",
        "aws_access_key_id = second",
        "aws_secret_access_key = s1",
        "aws_secret_access_key = s2",
    ]);
    let profiles = parse_credentials_file(&input).unwrap();
    let default_profile = profiles.get(DEFAULT).unwrap();
    assert_eq!(default_profile.aws_access_key_id(), "first");
    assert_eq!(default_profile.aws_secret_access_key(), "s1");
}

#[test]
fn comments_and_blanks_change_nothing() {
    let noisy = lines(&[
        "# leading comment",
        "[default]",
        "",
        "aws_access_key_id = foo",
        "; mid comment",
        "aws_secret_access_key = bar",
        "   ",
    ]);
    let clean = lines(&["[default]", "aws_access_key_id = foo", "aws_secret_access_key = bar"]);
    let noisy_map = parse_credentials_file(&noisy).unwrap();
    let clean_map = parse_credentials_file(&clean).unwrap();
    assert_eq!(noisy_map.len(), clean_map.len());
    let a = noisy_map.get(DEFAULT).unwrap();
    let b = clean_map.get(DEFAULT).unwrap();
    assert_eq!(a.aws_access_key_id(), b.aws_access_key_id());
    assert_eq!(a.aws_secret_access_key(), b.aws_secret_access_key());
    assert_eq!(a.token(), b.token());
}

#[test]
fn redeclared_header_keeps_only_second_span() {
    let input = lines(&[
        "[default]",
        "aws_access_key_id = old_access",
        "aws_secret_access_key = old_secret",
        "aws_session_token = old_token",
        "[default]",
        "aws_access_key_id = new_access",
        "aws_secret_access_key = new_secret",
    ]);
    let profiles = parse_credentials_file(&input).unwrap();
    assert_eq!(profiles.len(), 1);
    let default_profile = profiles.get(DEFAULT).unwrap();
    assert_eq!(default_profile.aws_access_key_id(), "new_access");
    assert_eq!(default_profile.aws_secret_access_key(), "new_secret");
    assert_eq!(default_profile.token(), &None);
}

#[test]
fn redeclared_header_with_disjoint_fields_does_not_merge() {
    let input = lines(&["[default]", "aws_access_key_id = foo", "[default]",
        "aws_secret_access_key = bar"]);
    let result = parse_credentials_file(&input);
    assert_eq!(result.err(), Some(ParseError::NoCredentialsFound));
}

#[test]
fn malformed_header_is_fatal_with_line_number() {
    let input = lines(&["[default]", "aws_access_key_id = foo", "[]"]);
    let result = parse_credentials_file(&input);
    assert_eq!(result.err(), Some(ParseError::MalformedHeader { line: 2 }));
}

#[test]
fn header_profile_prefix_is_stripped() {
    let input = lines(&["[profile dev]", "aws_access_key_id = a", "aws_secret_access_key = b"]);
    let profiles = parse_credentials_file(&input).unwrap();
    assert!(profiles.get("dev").is_some());
    assert!(profiles.get("profile dev").is_none());
}

#[test]
fn key_matching_ignores_case_but_values_keep_case() {
    let input = lines(&[
        "[default]",
        "AWS_ACCESS_KEY_ID = MixedCaseAccess",
        "Aws_Secret_Access_Key = SeCrEtValue",
    ]);
    let profiles = parse_credentials_file(&input).unwrap();
    let default_profile = profiles.get(DEFAULT).unwrap();
    assert_eq!(default_profile.aws_access_key_id(), "MixedCaseAccess");
    assert_eq!(default_profile.aws_secret_access_key(), "SeCrEtValue");
}

#[test]
fn security_token_alias_fills_the_token() {
    let input = lines(&[
        "[default]",
        "aws_access_key_id = a",
        "aws_secret_access_key = b",
        "aws_security_token = alias_token",
    ]);
    let profiles = parse_credentials_file(&input).unwrap();
    assert_eq!(profiles.get(DEFAULT).unwrap().token(), &Some("alias_token".to_string()));
}

#[test]
fn unrecognized_keys_are_ignored() {
    let input = lines(&[
        "[default]",
        "region = us-east-1",
        "aws_access_key_id = a",
        "output = json",
        "aws_secret_access_key = b",
    ]);
    let profiles = parse_credentials_file(&input).unwrap();
    assert_eq!(profiles.len(), 1);
    let default_profile = profiles.get(DEFAULT).unwrap();
    assert_eq!(default_profile.aws_access_key_id(), "a");
    assert_eq!(default_profile.aws_secret_access_key(), "b");
}

#[test]
fn lines_before_any_header_are_dropped() {
    let input = lines(&["aws_access_key_id = a", "aws_secret_access_key = b"]);
    let result = parse_credentials_file(&input);
    assert_eq!(result.err(), Some(ParseError::NoCredentialsFound));
}
