//! Channel-status reconciliation.
//!
//! A status query may be answered three ways, tried in order: the
//! line-pattern parse of the status text; a JSON document embedded in
//! that text; and the configuration file.  A parsed status line is
//! authoritative — a line that says `not configured` ends the matter even
//! though later sources might disagree — and the JSON and configuration
//! fallbacks are consulted only when no line named the channel.

use vstd::prelude::*;

verus! {

use crate::text::{str_to_chars, chars_to_string, eq_chars, contains_chars, contains_spec};
use crate::status::{lower_of, lower_chars, parse_channel_status_text, parse_channel_status_spec};
use crate::extract::{extract_json_from_output, extract_json_spec};
use crate::normalize::{strip_ansi, strip_ansi_codes};
use crate::envfile::{read_env_value, read_env_value_spec};
use crate::json::{json_parse, json_get, json_as_bool, json_as_str};

/// Where a channel stands after reconciliation.
pub enum ChannelStanding {
    /// A status line named the channel and said it is not configured.
    Unconfigured,
    /// The channel is configured; the message describes its state.
    Confirmed(String),
    /// No source could confirm the channel either way.
    Unresolved,
}

/// The message shown for a confirmed channel: its link state when
/// linked, else the status line's own message, else a plain
/// `configured`.
pub open spec fn confirm_message(linked: bool, msg: Seq<char>) -> Seq<char> {
    if linked {
        "已链接"@
    } else if msg.len() > 0 {
        msg
    } else {
        "已配置"@
    }
}

/// The reconciliation rule over the three sources, already reduced to
/// plain values: the parsed status line decides when present; otherwise
/// a JSON reading that says configured decides; otherwise the
/// configuration-file answer decides; otherwise nothing is known.
pub fn reconcile_channel_status(
    parsed: Option<(bool, bool, bool, String)>,
    json_status: Option<(bool, bool)>,
    config_fallback: Option<String>,
) -> (r: ChannelStanding)
    ensures
        parsed matches Some(p) ==> (!p.1 ==> r is Unconfigured),
        parsed matches Some(p) ==> (p.1 ==> (r matches ChannelStanding::Confirmed(m) && m@
            == confirm_message(p.2, p.3@))),
        parsed is None ==> (json_status matches Some(j) ==> (j.0 ==> (
        r matches ChannelStanding::Confirmed(m) && m@ == confirm_message(j.1, Seq::empty())))),
        parsed is None && (json_status is None || (json_status matches Some(j) && !j.0)) ==> (
        config_fallback matches Some(c) ==> (r matches ChannelStanding::Confirmed(m) && m@
            == c@)),
        parsed is None && (json_status is None || (json_status matches Some(j) && !j.0))
            && config_fallback is None ==> r is Unresolved,
{
    match parsed {
        Some((_enabled, configured, linked, msg)) => {
            if !configured {
                ChannelStanding::Unconfigured
            } else if linked {
                ChannelStanding::Confirmed(String::from_str("已链接"))
            } else if msg.as_str().unicode_len() > 0 {
                ChannelStanding::Confirmed(msg)
            } else {
                ChannelStanding::Confirmed(String::from_str("已配置"))
            }
        },
        None => {
            let confirmed_by_json = match json_status {
                Some((configured, _)) => configured,
                None => false,
            };
            if confirmed_by_json {
                let linked = match json_status {
                    Some((_, l)) => l,
                    None => false,
                };
                if linked {
                    ChannelStanding::Confirmed(String::from_str("已链接"))
                } else {
                    ChannelStanding::Confirmed(String::from_str("已配置"))
                }
            } else {
                match config_fallback {
                    Some(m) => ChannelStanding::Confirmed(m),
                    None => ChannelStanding::Unresolved,
                }
            }
        },
    }
}

/// The channels whose status test sends a real message; the others are
/// checked by status alone.
pub fn channel_needs_send_test(channel_type: &str) -> (r: bool)
    ensures
        r == (lower_of(channel_type@) == "telegram"@ || lower_of(channel_type@) == "discord"@
            || lower_of(channel_type@) == "slack"@ || lower_of(channel_type@) == "feishu"@),
{
    let v = str_to_chars(channel_type);
    let low = lower_chars(&v);
    let telegram = str_to_chars("telegram");
    let discord = str_to_chars("discord");
    let slack = str_to_chars("slack");
    let feishu = str_to_chars("feishu");
    eq_chars(&low, &telegram) || eq_chars(&low, &discord) || eq_chars(&low, &slack) || eq_chars(
        &low,
        &feishu,
    )
}

/// The environment key that names a channel's test target, for the
/// channels that have one.
pub open spec fn channel_env_key(channel_lower: Seq<char>) -> Option<Seq<char>> {
    if channel_lower == "telegram"@ {
        Some("OPENCLAW_TELEGRAM_USERID"@)
    } else if channel_lower == "discord"@ {
        Some("OPENCLAW_DISCORD_TESTCHANNELID"@)
    } else if channel_lower == "slack"@ {
        Some("OPENCLAW_SLACK_TESTCHANNELID"@)
    } else if channel_lower == "feishu"@ {
        Some("OPENCLAW_FEISHU_TESTCHATID"@)
    } else {
        None
    }
}

/// The test target for the channel, read from the environment-file text:
/// the value under the channel's key, or `None` for a channel that needs
/// no target or has none configured.
pub fn get_channel_test_target(channel_type: &str, env_content: &str) -> (r: Option<String>)
    ensures
        channel_env_key(lower_of(channel_type@)) is None ==> r is None,
        channel_env_key(lower_of(channel_type@)) matches Some(k) ==> ((r is Some) == (
        read_env_value_spec(env_content@, k) is Some) && (r matches Some(x)
            ==> read_env_value_spec(env_content@, k) matches Some(y) && x@ == y)),
{
    let v = str_to_chars(channel_type);
    let low = lower_chars(&v);
    let telegram = str_to_chars("telegram");
    let discord = str_to_chars("discord");
    let slack = str_to_chars("slack");
    let feishu = str_to_chars("feishu");
    let key: &str = if eq_chars(&low, &telegram) {
        "OPENCLAW_TELEGRAM_USERID"
    } else if eq_chars(&low, &discord) {
        "OPENCLAW_DISCORD_TESTCHANNELID"
    } else if eq_chars(&low, &slack) {
        "OPENCLAW_SLACK_TESTCHANNELID"
    } else if eq_chars(&low, &feishu) {
        "OPENCLAW_FEISHU_TESTCHATID"
    } else {
        return None;
    };
    read_env_value(env_content, key)
}

/// Whether the JSON value holds a non-empty string under `key`.
fn field_nonempty_str(v: &serde_json::Value, key: &str) -> bool {
    match json_get(v, key) {
        Some(f) => match json_as_str(f) {
            Some(s) => !s.is_empty(),
            None => false,
        },
        None => false,
    }
}

/// Whether the configuration file already configures a plugin channel.
/// Only `qqbot` and `feishu` can be answered this way: the channel's
/// object must hold a non-empty application id and secret.  The answer
/// carries the message to show for the confirmed channel.
pub fn is_plugin_channel_configured_in_config(config_text: &str, channel_id: &str) -> (r: Option<
    String,
>)
    ensures
        channel_id@ != "qqbot"@ && channel_id@ != "feishu"@ ==> r is None,
        r matches Some(m) ==> (channel_id@ == "qqbot"@ ==> m@
            == "已配置（请启动 Gateway 并与 QQ 机器人私聊验证）"@),
        r matches Some(m) ==> (channel_id@ != "qqbot"@ ==> m@ == "已配置（请启动 Gateway 验证）"@),
{
    let id = str_to_chars(channel_id);
    let qqbot = str_to_chars("qqbot");
    let feishu = str_to_chars("feishu");
    let is_qqbot = eq_chars(&id, &qqbot);
    let is_feishu = eq_chars(&id, &feishu);
    if !is_qqbot && !is_feishu {
        return None;
    }
    let json = match json_parse(config_text) {
        Some(j) => j,
        None => {
            return None;
        },
    };
    let channels = match json_get(&json, "channels") {
        Some(c) => c,
        None => {
            return None;
        },
    };
    let ch = match json_get(channels, channel_id) {
        Some(c) => c,
        None => {
            return None;
        },
    };
    if is_qqbot {
        if field_nonempty_str(ch, "appId") && field_nonempty_str(ch, "clientSecret") {
            Some(String::from_str("已配置（请启动 Gateway 并与 QQ 机器人私聊验证）"))
        } else {
            None
        }
    } else {
        if field_nonempty_str(ch, "appId") && field_nonempty_str(ch, "appSecret") {
            Some(String::from_str("已配置（请启动 Gateway 验证）"))
        } else {
            None
        }
    }
}

/// The `configured` and `linked` flags of the channel inside a JSON
/// status document: read from `channels.<channel>`, a missing or
/// non-boolean field reading as false; `None` when the text is not JSON
/// or does not list the channel.
pub(crate) fn channel_status_from_json(json_text: &str, channel_lower: &str) -> (r: Option<(bool, bool)>) {
    let json = match json_parse(json_text) {
        Some(j) => j,
        None => {
            return None;
        },
    };
    let channels = match json_get(&json, "channels") {
        Some(c) => c,
        None => {
            return None;
        },
    };
    let ch = match json_get(channels, channel_lower) {
        Some(c) => c,
        None => {
            return None;
        },
    };
    let configured = match json_get(ch, "configured") {
        Some(v) => match json_as_bool(v) {
            Some(b) => b,
            None => false,
        },
        None => false,
    };
    let linked = match json_get(ch, "linked") {
        Some(v) => match json_as_bool(v) {
            Some(b) => b,
            None => false,
        },
        None => false,
    };
    Some((configured, linked))
}

/// The channel's standing from a status query: the raw output is
/// normalized once, and then the parsed status line decides when one
/// names the channel; else the flags of a JSON document embedded in the
/// output; else the configuration file, when its text is at hand.  What
/// each source reports is reconciled by `reconcile_channel_status`.
pub fn resolve_channel_status(
    status_output: &str,
    channel_type: &str,
    config_text: Option<&str>,
) -> (r: ChannelStanding)
    ensures
        parse_channel_status_spec(strip_ansi(status_output@), channel_type@) matches Some(p) ==> (
        !p.1 ==> r is Unconfigured),
        parse_channel_status_spec(strip_ansi(status_output@), channel_type@) matches Some(p) ==> (
        p.1 ==> (r matches ChannelStanding::Confirmed(m) && m@ == confirm_message(p.2, p.3))),
        parse_channel_status_spec(strip_ansi(status_output@), channel_type@) is None
            && extract_json_spec(strip_ansi(status_output@)) is None && config_text is None
            ==> r is Unresolved,
{
    let normalized = strip_ansi_codes(status_output);
    let parsed = parse_channel_status_text(normalized.as_str(), channel_type);
    let json_status = if parsed.is_some() {
        None
    } else {
        match extract_json_from_output(normalized.as_str()) {
            Some(js) => {
                let v = str_to_chars(channel_type);
                let low = lower_chars(&v);
                let low_s = chars_to_string(&low);
                channel_status_from_json(js.as_str(), low_s.as_str())
            },
            None => None,
        }
    };
    let config_fallback = if parsed.is_some() {
        None
    } else {
        match config_text {
            Some(t) => {
                let v = str_to_chars(channel_type);
                let low = lower_chars(&v);
                let low_s = chars_to_string(&low);
                is_plugin_channel_configured_in_config(t, low_s.as_str())
            },
            None => None,
        }
    };
    reconcile_channel_status(parsed, json_status, config_fallback)
}

/// Whether the output of a test-message send reports success: inside an
/// embedded JSON document, any of the known success flags or message
/// ids; with no JSON found, the absence of failure keywords.
pub fn send_result_indicates_success(output: &str) -> (r: bool)
    ensures
        extract_json_spec(output@) is None ==> r == (!contains_spec(lower_of(output@), "error"@)
            && !contains_spec(lower_of(output@), "failed"@)),
{
    match extract_json_from_output(output) {
        Some(js) => match json_parse(js.as_str()) {
            Some(json) => {
                let has_ok = json_flag(&json, "ok");
                let has_success = json_flag(&json, "success");
                let has_message_id = json_get(&json, "messageId").is_some();
                let has_payload_ok = match json_get(&json, "payload") {
                    Some(p) => json_flag(p, "ok"),
                    None => false,
                };
                let has_payload_message_id = match json_get(&json, "payload") {
                    Some(p) => json_get(p, "messageId").is_some(),
                    None => false,
                };
                let has_payload_result_message_id = match json_get(&json, "payload") {
                    Some(p) => match json_get(p, "result") {
                        Some(res) => json_get(res, "messageId").is_some(),
                        None => false,
                    },
                    None => false,
                };
                has_ok || has_success || has_message_id || has_payload_ok
                    || has_payload_message_id || has_payload_result_message_id
            },
            None => false,
        },
        None => no_failure_keywords(output),
    }
}

/// Whether the output of a direct message send reports success: the
/// basic success flags of an embedded JSON document, or the absence of
/// failure keywords when no JSON is found.
pub fn message_send_indicates_success(output: &str) -> (r: bool)
    ensures
        extract_json_spec(output@) is None ==> r == (!contains_spec(lower_of(output@), "error"@)
            && !contains_spec(lower_of(output@), "failed"@)),
{
    match extract_json_from_output(output) {
        Some(js) => match json_parse(js.as_str()) {
            Some(json) => {
                let has_success = json_flag(&json, "success");
                let has_ok = json_flag(&json, "ok");
                let has_message_id = json_get(&json, "messageId").is_some();
                has_success || has_ok || has_message_id
            },
            None => false,
        },
        None => no_failure_keywords(output),
    }
}

/// Whether the JSON value holds `true` under `key`.
fn json_flag(v: &serde_json::Value, key: &str) -> bool {
    match json_get(v, key) {
        Some(f) => match json_as_bool(f) {
            Some(b) => b,
            None => false,
        },
        None => false,
    }
}

/// Whether the lowercased output carries neither `error` nor `failed`.
fn no_failure_keywords(output: &str) -> (r: bool)
    ensures
        r == (!contains_spec(lower_of(output@), "error"@) && !contains_spec(
            lower_of(output@),
            "failed"@,
        )),
{
    let v = str_to_chars(output);
    let low = lower_chars(&v);
    let error_kw = str_to_chars("error");
    let failed_kw = str_to_chars("failed");
    !contains_chars(&low, &error_kw) && !contains_chars(&low, &failed_kw)
}

} // verus!
