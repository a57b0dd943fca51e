use openclaw_status::diagnose::{ai_output_success, build_test_message, filter_warning_lines, make_test_message};
use openclaw_status::outcome::{
    command_path_from_output, latest_version_from_output, node_version_from_output,
    run_bash_output, run_cmd_output, run_command_output, run_login_shell_output,
    run_powershell_output, run_script_output,
};
use openclaw_status::types::{environment_ready, PathLogCache};

#[test]
fn command_output_trims_stdout_on_success() {
    assert_eq!(
        run_command_output(true, "  v22.1.0 \n", ""),
        Ok("v22.1.0".to_string())
    );
}

#[test]
fn command_output_trims_stderr_on_failure() {
    assert_eq!(
        run_command_output(false, "ignored", " boom \n"),
        Err("boom".to_string())
    );
}

#[test]
fn bash_output_prefers_stderr() {
    assert_eq!(
        run_bash_output(false, "out", " bad ", Some(1)),
        Err("bad".to_string())
    );
}

#[test]
fn bash_output_reports_exit_code_when_stderr_empty() {
    assert_eq!(
        run_bash_output(false, "out", "  \n", Some(3)),
        Err("Command failed with exit code: Some(3)".to_string())
    );
}

#[test]
fn bash_output_reports_missing_exit_code() {
    assert_eq!(
        run_bash_output(false, "", "", None),
        Err("Command failed with exit code: None".to_string())
    );
}

#[test]
fn bash_output_renders_negative_exit_code() {
    assert_eq!(
        run_bash_output(false, "", "", Some(-2)),
        Err("Command failed with exit code: Some(-2)".to_string())
    );
}

#[test]
fn bash_output_renders_large_exit_code() {
    assert_eq!(
        run_bash_output(false, "", "", Some(137)),
        Err("Command failed with exit code: Some(137)".to_string())
    );
}

#[test]
fn cmd_output_falls_back_to_stdout() {
    assert_eq!(
        run_cmd_output(false, " details ", "  ", Some(1)),
        Err("details".to_string())
    );
}

#[test]
fn cmd_output_falls_back_to_exit_code() {
    assert_eq!(
        run_cmd_output(false, "  ", "", Some(9009)),
        Err("Command failed with exit code: Some(9009)".to_string())
    );
}

#[test]
fn powershell_output_reads_like_cmd() {
    assert_eq!(
        run_powershell_output(false, "ps out", "", None),
        Err("ps out".to_string())
    );
    assert_eq!(run_powershell_output(true, " x ", "", None), Ok("x".to_string()));
}

#[test]
fn script_output_dispatches_by_platform() {
    // cmd.exe reading falls back to stdout; bash reading does not.
    assert_eq!(
        run_script_output(true, false, "why", "", Some(1)),
        Err("why".to_string())
    );
    assert_eq!(
        run_script_output(false, false, "why", "", Some(1)),
        Err("Command failed with exit code: Some(1)".to_string())
    );
}

#[test]
fn login_shell_output_rejects_windows() {
    assert_eq!(
        run_login_shell_output(true, true, "out", "", None),
        Err("Login shell execution is not available on Windows".to_string())
    );
    assert_eq!(
        run_login_shell_output(false, true, " out ", "", None),
        Ok("out".to_string())
    );
}

#[test]
fn node_version_needs_v_prefix() {
    assert_eq!(
        node_version_from_output(" v22.1.0 \n"),
        Some("v22.1.0".to_string())
    );
    assert_eq!(node_version_from_output("22.1.0"), None);
    assert_eq!(node_version_from_output("   "), None);
}

#[test]
fn latest_version_needs_content() {
    assert_eq!(
        latest_version_from_output(" 1.2.3 \n"),
        Some("1.2.3".to_string())
    );
    assert_eq!(latest_version_from_output("  \n"), None);
}

#[test]
fn command_path_takes_first_nonempty_line_on_windows() {
    let out = "\n  \nC:\\nodejs\\node.exe\nC:\\other\\node.exe\n";
    assert_eq!(
        command_path_from_output(true, out),
        Some("C:\\nodejs\\node.exe".to_string())
    );
    assert_eq!(command_path_from_output(true, " \n \n"), None);
}

#[test]
fn command_path_trims_single_answer_elsewhere() {
    assert_eq!(
        command_path_from_output(false, "/usr/bin/git\n"),
        Some("/usr/bin/git".to_string())
    );
    assert_eq!(command_path_from_output(false, ""), None);
}

#[test]
fn warning_lines_are_filtered() {
    let raw = "ready\n(node:1) ExperimentalWarning: feature X\nall good";
    assert_eq!(filter_warning_lines(raw), "ready\nall good");
}

#[test]
fn ai_success_rules() {
    assert!(ai_output_success("OK, reply sent"));
    assert!(!ai_output_success("Error: connection refused"));
    assert!(!ai_output_success("ERROR in module"));
    assert!(!ai_output_success("HTTP 401 Unauthorized"));
    assert!(!ai_output_success("status 403"));
}

#[test]
fn test_message_carries_timestamp() {
    let msg = build_test_message("2024-01-02 03:04:05");
    assert_eq!(
        msg,
        "🤖 OpenClaw 测试消息\n\n✅ 连接成功！\n⏰ 2024-01-02 03:04:05"
    );
}

#[test]
fn fresh_test_message_has_greeting() {
    let msg = make_test_message();
    assert!(msg.starts_with("🤖 OpenClaw 测试消息\n\n✅ 连接成功！\n⏰ "));
}

#[test]
fn path_log_cache_deduplicates() {
    let mut cache = PathLogCache::new();
    assert!(cache.note("/usr/local/bin/openclaw"));
    assert!(!cache.note("/usr/local/bin/openclaw"));
    assert!(cache.note("/opt/homebrew/bin/openclaw"));
    assert!(cache.note("/usr/local/bin/openclaw"));
}

#[test]
fn readiness_rule_samples() {
    // the CLI being installed is enough by itself
    assert!(environment_ready(true, false, false, false, false, false, false));
    // a bundled runtime plus offline package needs nothing else
    assert!(environment_ready(false, true, true, true, false, false, false));
    // an offline package alone still needs a good Node.js
    assert!(!environment_ready(false, false, true, false, false, false, false));
    assert!(environment_ready(false, false, true, false, true, true, false));
    // Windows without offline material also needs Git
    assert!(!environment_ready(false, false, false, true, true, true, false));
    assert!(environment_ready(false, false, false, true, true, true, true));
    // elsewhere Node.js alone decides
    assert!(environment_ready(false, false, false, false, true, true, false));
    assert!(!environment_ready(false, false, false, false, true, false, false));
}
