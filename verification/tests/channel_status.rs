use openclaw_status::channels::{
    channel_needs_send_test, get_channel_test_target, is_plugin_channel_configured_in_config,
    message_send_indicates_success, reconcile_channel_status, resolve_channel_status,
    send_result_indicates_success, ChannelStanding,
};
use openclaw_status::status::parse_channel_status_text;

#[test]
fn status_line_not_configured() {
    let line = "- Telegram default: enabled, not configured, mode:polling, token:config";
    let got = parse_channel_status_text(line, "telegram").expect("line should match");
    assert_eq!(got.0, true);
    assert_eq!(got.1, false);
    assert_eq!(got.2, false);
    assert_eq!(got.3, "enabled, not configured, mode:polling, token:config");
}

#[test]
fn status_line_linked() {
    let got = parse_channel_status_text("- Discord main: enabled, configured, linked", "discord")
        .expect("line should match");
    assert_eq!(got, (true, true, true, "enabled, configured, linked".to_string()));
}

#[test]
fn status_line_no_dash_prefix_yields_none() {
    assert_eq!(
        parse_channel_status_text("Discord main: enabled, configured", "discord"),
        None
    );
}

#[test]
fn status_line_other_channel_yields_none() {
    assert_eq!(
        parse_channel_status_text("- Slack team: enabled, configured", "discord"),
        None
    );
}

#[test]
fn status_channel_match_is_case_insensitive() {
    let got = parse_channel_status_text("- Telegram default: enabled, configured", "TELEGRAM");
    assert!(got.is_some());
}

#[test]
fn status_line_without_colon_has_empty_message() {
    let got = parse_channel_status_text("- telegram enabled, configured", "telegram")
        .expect("line should match");
    assert_eq!(got.3, "");
}

#[test]
fn status_first_matching_line_wins() {
    let text = "- Telegram a: enabled, configured, first:one\n- Telegram b: enabled, linked";
    let got = parse_channel_status_text(text, "telegram").expect("line should match");
    assert_eq!(got.3, "enabled, configured, first:one");
}

#[test]
fn reconcile_parsed_unconfigured_is_authoritative() {
    let parsed = Some((true, false, false, "enabled, not configured".to_string()));
    let got = reconcile_channel_status(parsed, Some((true, true)), Some("已配置".to_string()));
    assert!(matches!(got, ChannelStanding::Unconfigured));
}

#[test]
fn reconcile_parsed_linked_message() {
    let parsed = Some((true, true, true, "whatever".to_string()));
    match reconcile_channel_status(parsed, None, None) {
        ChannelStanding::Confirmed(m) => assert_eq!(m, "已链接"),
        _ => panic!("expected confirmation"),
    }
}

#[test]
fn reconcile_parsed_keeps_status_message() {
    let parsed = Some((true, true, false, "enabled, configured, mode:polling".to_string()));
    match reconcile_channel_status(parsed, None, None) {
        ChannelStanding::Confirmed(m) => assert_eq!(m, "enabled, configured, mode:polling"),
        _ => panic!("expected confirmation"),
    }
}

#[test]
fn reconcile_parsed_empty_message_reads_configured() {
    let parsed = Some((true, true, false, String::new()));
    match reconcile_channel_status(parsed, None, None) {
        ChannelStanding::Confirmed(m) => assert_eq!(m, "已配置"),
        _ => panic!("expected confirmation"),
    }
}

#[test]
fn reconcile_json_fallback_confirms() {
    match reconcile_channel_status(None, Some((true, false)), None) {
        ChannelStanding::Confirmed(m) => assert_eq!(m, "已配置"),
        _ => panic!("expected confirmation"),
    }
}

#[test]
fn reconcile_config_fallback_confirms() {
    match reconcile_channel_status(None, Some((false, false)), Some("from config".to_string())) {
        ChannelStanding::Confirmed(m) => assert_eq!(m, "from config"),
        _ => panic!("expected confirmation"),
    }
}

#[test]
fn reconcile_nothing_confirms_nothing() {
    assert!(matches!(
        reconcile_channel_status(None, None, None),
        ChannelStanding::Unresolved
    ));
}

#[test]
fn resolve_uses_embedded_json_when_no_line_matches() {
    let output = "gateway says\n{\"channels\":{\"telegram\":{\"configured\":true,\"linked\":true}}}\nbye";
    match resolve_channel_status(output, "telegram", None) {
        ChannelStanding::Confirmed(m) => assert_eq!(m, "已链接"),
        _ => panic!("expected confirmation from json"),
    }
}

#[test]
fn resolve_normalizes_colored_output_first() {
    let output = "\x1b[32m- Telegram default: enabled, configured, linked\x1b[0m";
    match resolve_channel_status(output, "telegram", None) {
        ChannelStanding::Confirmed(m) => assert_eq!(m, "已链接"),
        _ => panic!("expected confirmation"),
    }
}

#[test]
fn resolve_json_missing_channel_is_unresolved() {
    let output = "x\n{\"channels\":{\"slack\":{\"configured\":true}}}\n";
    assert!(matches!(
        resolve_channel_status(output, "telegram", None),
        ChannelStanding::Unresolved
    ));
}

#[test]
fn resolve_uses_config_for_plugin_channel() {
    let config = "{\"channels\":{\"qqbot\":{\"appId\":\"id1\",\"clientSecret\":\"s1\"}}}";
    match resolve_channel_status("nothing useful", "qqbot", Some(config)) {
        ChannelStanding::Confirmed(m) => {
            assert_eq!(m, "已配置（请启动 Gateway 并与 QQ 机器人私聊验证）")
        }
        _ => panic!("expected confirmation from config"),
    }
}

#[test]
fn plugin_config_rejects_empty_secret() {
    let config = "{\"channels\":{\"qqbot\":{\"appId\":\"id1\",\"clientSecret\":\"\"}}}";
    assert_eq!(is_plugin_channel_configured_in_config(config, "qqbot"), None);
}

#[test]
fn plugin_config_feishu_needs_app_secret() {
    let config = "{\"channels\":{\"feishu\":{\"appId\":\"a\",\"appSecret\":\"b\"}}}";
    assert_eq!(
        is_plugin_channel_configured_in_config(config, "feishu"),
        Some("已配置（请启动 Gateway 验证）".to_string())
    );
}

#[test]
fn plugin_config_ignores_other_channels() {
    let config = "{\"channels\":{\"telegram\":{\"appId\":\"a\"}}}";
    assert_eq!(is_plugin_channel_configured_in_config(config, "telegram"), None);
}

#[test]
fn needs_send_test_by_channel() {
    assert!(channel_needs_send_test("telegram"));
    assert!(channel_needs_send_test("Discord"));
    assert!(channel_needs_send_test("slack"));
    assert!(channel_needs_send_test("feishu"));
    assert!(!channel_needs_send_test("whatsapp"));
    assert!(!channel_needs_send_test("imessage"));
    assert!(!channel_needs_send_test("qqbot"));
}

#[test]
fn test_target_reads_env_value() {
    let env = "export OPENCLAW_TELEGRAM_USERID=\"12345\"\n";
    assert_eq!(
        get_channel_test_target("telegram", env),
        Some("12345".to_string())
    );
}

#[test]
fn test_target_none_for_whatsapp() {
    let env = "export OPENCLAW_TELEGRAM_USERID=\"12345\"\n";
    assert_eq!(get_channel_test_target("whatsapp", env), None);
}

#[test]
fn send_success_from_json_ok_flag() {
    assert!(send_result_indicates_success("sent\n{\"ok\":true}\n"));
}

#[test]
fn send_success_from_payload_message_id() {
    assert!(send_result_indicates_success(
        "{\"payload\":{\"result\":{\"messageId\":\"m1\"}}}"
    ));
}

#[test]
fn send_failure_when_json_has_no_flags() {
    assert!(!send_result_indicates_success("{\"status\":\"queued\"}"));
}

#[test]
fn send_keyword_check_without_json() {
    assert!(send_result_indicates_success("message delivered"));
    assert!(!send_result_indicates_success("delivery FAILED for target"));
    assert!(!send_result_indicates_success("Error: no such channel"));
}

#[test]
fn message_send_success_basic_flags() {
    assert!(message_send_indicates_success("{\"success\":true}"));
    assert!(message_send_indicates_success("{\"messageId\":\"x\"}"));
    assert!(!message_send_indicates_success("{\"success\":false}"));
    assert!(message_send_indicates_success("done"));
}
