use clash_verge::help::{get_last_part_and_decode, get_uid, parse_str, resolve_profile_path, url_last_segment};

#[test]
fn test_parse_value() {
    let test_1 = "upload=111; download=2222; total=3333; expire=444";
    let test_2 = "attachment; filename=Clash.yaml";

    assert_eq!(parse_str::<usize>(test_1, "upload").unwrap(), 111);
    assert_eq!(parse_str::<usize>(test_1, "download").unwrap(), 2222);
    assert_eq!(parse_str::<usize>(test_1, "total").unwrap(), 3333);
    assert_eq!(parse_str::<usize>(test_1, "expire").unwrap(), 444);
    assert_eq!(parse_str::<String>(test_2, "filename").unwrap(), format!("Clash.yaml"));

    assert_eq!(parse_str::<usize>(test_1, "aaa"), None);
    assert_eq!(parse_str::<usize>(test_1, "upload1"), None);
    assert_eq!(parse_str::<usize>(test_1, "expire1"), None);
    assert_eq!(parse_str::<usize>(test_2, "attachment"), None);
}

#[test]
fn parse_str_takes_first_piece_that_parses() {
    assert_eq!(parse_str::<u64>("a=x; a=7; a=9", "a"), Some(7));
    assert_eq!(parse_str::<u64>("a=+5", "a"), Some(5));
    assert_eq!(parse_str::<u64>("a=", "a"), None);
    assert_eq!(parse_str::<u64>("a=18446744073709551616", "a"), None);
    assert_eq!(parse_str::<u64>("a=18446744073709551615", "a"), Some(u64::MAX));
    assert_eq!(parse_str::<String>("a=b=c", "a"), Some("b=c".to_string()));
    assert_eq!(parse_str::<String>("  a = b", "a"), None);
    assert_eq!(parse_str::<String>("", "a"), None);
}

#[test]
fn profile_names_are_checked() {
    assert_eq!(resolve_profile_path("  abc.yaml ").unwrap(), "abc.yaml");
    let invalid = "Invalid profile file name".to_string();
    assert_eq!(resolve_profile_path("").unwrap_err(), invalid);
    assert_eq!(resolve_profile_path("   ").unwrap_err(), invalid);
    assert_eq!(resolve_profile_path(".").unwrap_err(), invalid);
    assert_eq!(resolve_profile_path("..").unwrap_err(), invalid);
    assert_eq!(resolve_profile_path("a/b.yaml").unwrap_err(), invalid);
    assert_eq!(resolve_profile_path("a\\b.yaml").unwrap_err(), invalid);
    assert_eq!(resolve_profile_path("C:b.yaml").unwrap_err(), invalid);
    assert_eq!(resolve_profile_path("...").unwrap(), "...");
}

#[test]
fn last_part_of_url_is_decoded() {
    assert_eq!(url_last_segment("https://a.com/sub/my%20profile.yaml?token=1"), "my%20profile.yaml");
    assert_eq!(
        get_last_part_and_decode("https://a.com/sub/my%20profile.yaml?token=1"),
        Some("my profile.yaml".to_string())
    );
    assert_eq!(get_last_part_and_decode("https://a.com/sub/"), Some(String::new()));
    assert_eq!(get_last_part_and_decode("plain"), Some("plain".to_string()));
    assert_eq!(get_last_part_and_decode("https://a.com/%E4%B8%AD"), Some("中".to_string()));
}

#[test]
fn uid_has_prefix_and_eleven_characters() {
    let id = get_uid("m");
    assert!(id.starts_with('m'));
    assert_eq!(id.chars().count(), 12);
    assert!(id.chars().skip(1).all(|c| c.is_ascii_alphanumeric()));
    let other = get_uid("m");
    assert_eq!(other.len(), 12);
}

#[test]
fn temp_file_names_and_prefixed_yaml() {
    let name = clash_verge::help::temp_file_name(1234, "tmp");
    assert!(name.starts_with('.'));
    assert!(name.ends_with(".1234.tmp"));
    assert_eq!(name.len(), 1 + 6 + ".1234.tmp".len());
    assert!(name[1..7].chars().all(|c| c.is_ascii_alphanumeric()));
    assert_eq!(clash_verge::help::yaml_file_text(Some("# profile"), "a: 1\n"), "# profile\n\na: 1\n");
    assert_eq!(clash_verge::help::yaml_file_text(None, "a: 1\n"), "a: 1\n");
}
