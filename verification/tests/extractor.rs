use openclaw_status::extract::extract_json_from_output;
use openclaw_status::normalize::strip_ansi_codes;

#[test]
fn normalizer_strips_color_codes() {
    assert_eq!(strip_ansi_codes("\x1b[31mHello\x1b[0m"), "Hello");
}

#[test]
fn normalizer_strips_codes_inside_larger_text() {
    assert_eq!(
        strip_ansi_codes("say \x1b[31mHello\x1b[0m world"),
        "say Hello world"
    );
}

#[test]
fn normalizer_is_idempotent_on_sample() {
    let once = strip_ansi_codes("a\x1b[1;32mb\x1b[0mc\x1b d");
    let twice = strip_ansi_codes(&once);
    assert_eq!(once, twice);
}

#[test]
fn normalizer_drops_lone_escape() {
    assert_eq!(strip_ansi_codes("a\x1bbc"), "abc");
}

#[test]
fn normalizer_consumes_unterminated_sequence() {
    assert_eq!(strip_ansi_codes("ok\x1b[123"), "ok");
}

#[test]
fn normalizer_keeps_line_breaks() {
    assert_eq!(strip_ansi_codes("\x1b[2ma\nb\x1b[0m\n"), "a\nb\n");
}

#[test]
fn normalizer_passes_clean_text_through() {
    assert_eq!(strip_ansi_codes("plain text, no escapes"), "plain text, no escapes");
}

#[test]
fn extractor_round_trip_single_json_line() {
    let out = extract_json_from_output("log line\n{\"a\":1}\nmore log\n");
    assert_eq!(out.as_deref(), Some("{\"a\":1}"));
}

#[test]
fn extractor_rejects_bracketed_log_tag() {
    assert_eq!(extract_json_from_output("[plugins] loaded"), None);
}

#[test]
fn extractor_rejects_info_tag() {
    assert_eq!(extract_json_from_output("[INFO] something"), None);
}

#[test]
fn extractor_accepts_string_array() {
    let out = extract_json_from_output("[\"a\",\"b\",\n\"c\"\n]");
    assert_eq!(out.as_deref(), Some("[\"a\",\"b\",\n\"c\"\n]"));
}

#[test]
fn extractor_accepts_numeric_array() {
    let out = extract_json_from_output("noise\n[1,\n2\n]\n");
    assert_eq!(out.as_deref(), Some("[1,\n2\n]"));
}

#[test]
fn extractor_single_line_array_lacks_end_line() {
    // An array start is recognized, but only a line that is exactly `]`
    // or `],` closes an array — a one-line array finds no end line.
    assert_eq!(extract_json_from_output("[\"a\",\"b\"]"), None);
}

#[test]
fn extractor_yields_none_without_end_line() {
    assert_eq!(extract_json_from_output("junk\n{\"a\": 1\nmore"), None);
}

#[test]
fn extractor_yields_none_on_empty_input() {
    assert_eq!(extract_json_from_output(""), None);
}

#[test]
fn extractor_yields_none_on_whitespace_input() {
    assert_eq!(extract_json_from_output("   \n  \n"), None);
}

#[test]
fn extractor_yields_none_when_end_precedes_start() {
    assert_eq!(extract_json_from_output("}\nlater text\n{\"a\": 1"), None);
}

#[test]
fn extractor_spans_first_start_to_last_end() {
    let out = extract_json_from_output("x\n{\"a\":1}\nmid\n{\"b\":2}\n");
    assert_eq!(out.as_deref(), Some("{\"a\":1}\nmid\n{\"b\":2}"));
}

#[test]
fn extractor_strips_colors_before_scanning() {
    let out = extract_json_from_output("\x1b[32m{\"ok\":true}\x1b[0m");
    assert_eq!(out.as_deref(), Some("{\"ok\":true}"));
}

#[test]
fn extractor_accepts_comma_terminated_object_end() {
    let out = extract_json_from_output("{\"a\":1\n},\ntail");
    assert_eq!(out.as_deref(), Some("{\"a\":1\n},"));
}

#[test]
fn extractor_handles_multi_line_object() {
    let input = "starting\n{\n  \"a\": 1,\n  \"b\": 2\n}\ndone";
    let out = extract_json_from_output(input).expect("json candidate");
    assert_eq!(out, "{\n  \"a\": 1,\n  \"b\": 2\n}");
    let parsed: serde_json::Value = serde_json::from_str(&out).expect("valid json");
    assert_eq!(parsed.get("b").and_then(|v| v.as_i64()), Some(2));
}
