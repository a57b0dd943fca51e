use openclaw_status::envfile::{
    load_openclaw_env_vars, read_env_value, remove_env_value, set_env_value,
};
use openclaw_status::versions::{
    check_node_version_requirement, check_openclaw_update, compare_versions,
    extract_numeric_parts, normalize_openclaw_channel,
};

#[test]
fn read_env_value_unquotes() {
    let content = "export A=\"alpha\"\nexport B='beta'\nexport C=gamma\n";
    assert_eq!(read_env_value(content, "A"), Some("alpha".to_string()));
    assert_eq!(read_env_value(content, "B"), Some("beta".to_string()));
    assert_eq!(read_env_value(content, "C"), Some("gamma".to_string()));
}

#[test]
fn read_env_value_missing_key() {
    assert_eq!(read_env_value("export A=\"alpha\"\n", "B"), None);
}

#[test]
fn read_env_value_first_line_wins() {
    let content = "export K=\"one\"\nexport K=\"two\"\n";
    assert_eq!(read_env_value(content, "K"), Some("one".to_string()));
}

#[test]
fn read_env_value_ignores_plain_assignments() {
    assert_eq!(read_env_value("K=raw\n", "K"), None);
}

#[test]
fn read_env_value_trims_the_line_first() {
    assert_eq!(
        read_env_value("   export K=\"v\"  \n", "K"),
        Some("v".to_string())
    );
}

#[test]
fn read_env_value_strips_repeated_marker() {
    // the marker is removed as often as it stands at the front
    assert_eq!(
        read_env_value("export K=export K=v\n", "K"),
        Some("v".to_string())
    );
}

#[test]
fn set_env_value_does_not_trim_lines() {
    // only a line that starts with the marker itself is replaced;
    // an indented line is left alone and the new line is appended
    let updated = set_env_value("  export K=\"old\"", "K", "new");
    assert_eq!(updated, "  export K=\"old\"\nexport K=\"new\"");
}

#[test]
fn set_env_value_replaces_first_match() {
    let content = "export A=\"old\"\nexport B=\"keep\"";
    let updated = set_env_value(content, "A", "new");
    assert_eq!(updated, "export A=\"new\"\nexport B=\"keep\"");
}

#[test]
fn set_env_value_appends_when_missing() {
    let updated = set_env_value("export B=\"keep\"", "A", "fresh");
    assert_eq!(updated, "export B=\"keep\"\nexport A=\"fresh\"");
}

#[test]
fn set_env_value_on_empty_content() {
    assert_eq!(set_env_value("", "A", "v"), "export A=\"v\"");
}

#[test]
fn remove_env_value_drops_every_match() {
    let content = "export A=\"1\"\nexport B=\"2\"\nexport A=\"3\"";
    assert_eq!(remove_env_value(content, "A"), "export B=\"2\"");
}

#[test]
fn remove_env_value_keeps_other_lines() {
    let content = "# comment\nexport B=\"2\"";
    assert_eq!(remove_env_value(content, "A"), "# comment\nexport B=\"2\"");
}

#[test]
fn load_env_vars_reads_pairs_in_order() {
    let content = "# comment\n\nexport A=\"1\"\nB='2'\nC = 3\nbroken line\n";
    let pairs = load_openclaw_env_vars(content);
    assert_eq!(
        pairs,
        vec![
            ("A".to_string(), "1".to_string()),
            ("B".to_string(), "2".to_string()),
            ("C".to_string(), "3".to_string()),
        ]
    );
}

#[test]
fn load_env_vars_keeps_duplicate_keys() {
    let pairs = load_openclaw_env_vars("K=1\nK=2\n");
    assert_eq!(
        pairs,
        vec![
            ("K".to_string(), "1".to_string()),
            ("K".to_string(), "2".to_string()),
        ]
    );
}

#[test]
fn numeric_parts_of_plain_version() {
    assert_eq!(extract_numeric_parts("v1.2.3"), vec![1, 2, 3]);
}

#[test]
fn numeric_parts_of_prerelease_version() {
    assert_eq!(extract_numeric_parts("1.0.0-beta.2"), vec![1, 0, 0, 2]);
}

#[test]
fn numeric_parts_drop_overflowing_component() {
    assert_eq!(extract_numeric_parts("99999999999.7"), vec![7]);
}

#[test]
fn numeric_parts_of_empty_string() {
    assert_eq!(extract_numeric_parts(""), Vec::<u32>::new());
}

#[test]
fn compare_versions_detects_newer_patch() {
    assert!(compare_versions("1.0.0", "1.0.1"));
}

#[test]
fn compare_versions_equal_is_not_newer() {
    assert!(!compare_versions("v2.3.4", "2.3.4"));
}

#[test]
fn compare_versions_older_is_not_newer() {
    assert!(!compare_versions("1.0.1", "1.0.0"));
}

#[test]
fn compare_versions_zero_extends_shorter() {
    assert!(compare_versions("1.0", "1.0.1"));
    assert!(!compare_versions("1.0.0", "1.0"));
}

#[test]
fn node_version_floor() {
    assert!(check_node_version_requirement(&Some("v22.1.0".to_string())));
    assert!(check_node_version_requirement(&Some("v23.0.0".to_string())));
    assert!(!check_node_version_requirement(&Some("v21.9.0".to_string())));
    assert!(!check_node_version_requirement(&None));
    assert!(!check_node_version_requirement(&Some("nodejs".to_string())));
}

#[test]
fn update_check_without_current_version() {
    let info = check_openclaw_update(None, Some("1.0.1".to_string()));
    assert!(!info.update_available);
    assert_eq!(info.error, Some("OpenClaw 未安装".to_string()));
}

#[test]
fn update_check_without_latest_version() {
    let info = check_openclaw_update(Some("1.0.0".to_string()), None);
    assert!(!info.update_available);
    assert_eq!(info.current_version, Some("1.0.0".to_string()));
    assert_eq!(info.error, Some("无法获取最新版本信息".to_string()));
}

#[test]
fn update_check_compares_versions() {
    let info = check_openclaw_update(Some("1.0.0".to_string()), Some("1.1.0".to_string()));
    assert!(info.update_available);
    assert_eq!(info.error, None);
    let same = check_openclaw_update(Some("1.1.0".to_string()), Some("1.1.0".to_string()));
    assert!(!same.update_available);
}

#[test]
fn channel_normalization() {
    assert_eq!(normalize_openclaw_channel(" Nightly \n"), "nightly");
    assert_eq!(normalize_openclaw_channel("latest"), "latest");
    assert_eq!(normalize_openclaw_channel("weekly"), "latest");
    assert_eq!(normalize_openclaw_channel(""), "latest");
}
