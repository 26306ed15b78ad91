//! Tests for the text, timestamp, and rollout parsing functions.

use codex_warp::rollout::extract_session_meta_triplet;
use codex_warp::{
    days_from_civil, extract_json_string_field, parse_rfc3339_ms, parse_rollout_session_id,
    safe_title, should_show_rollout_user_text, strip_tool_citations, unquote_yaml_scalar,
    parse_skill_front_matter,
};

#[test]
fn extract_session_meta_triplet_falls_back_when_base_instructions_precedes_originator() {
    let line = serde_json::to_string(&serde_json::from_str::<serde_json::Value>(
        "{\"timestamp\":\"2026-01-01T00:00:00.000Z\",\"type\":\"session_meta\",\"payload\":{\"cwd\":\"/tmp\",\"base_instructions\":{\"text\":\"x\"},\"originator\":\"codex_exec\",\"source\":\"exec\"}}",
    ).unwrap()).unwrap();

    let (cwd, originator, source) = extract_session_meta_triplet(&line, Some(&line));
    assert_eq!(cwd.as_deref(), Some("/tmp"));
    assert_eq!(originator.as_deref(), Some("codex_exec"));
    assert_eq!(source.as_deref(), Some("exec"));
}

#[test]
fn triplet_prefers_prefix_scan_when_originator_is_early() {
    let line = "{\"type\":\"session_meta\",\"payload\":{\"cwd\":\"/home/u\",\"originator\":\"codex\",\"source\":\"chatgpt\"}}";
    let (cwd, originator, source) = extract_session_meta_triplet(line, None);
    assert_eq!(cwd.as_deref(), Some("/home/u"));
    assert_eq!(originator.as_deref(), Some("codex"));
    assert_eq!(source.as_deref(), Some("chatgpt"));
}

#[test]
fn rollout_file_names_parse_to_thread_ids() {
    assert_eq!(
        parse_rollout_session_id("rollout-2026-01-31T09-11-23-abc123.jsonl").as_deref(),
        Some("abc123")
    );
    assert_eq!(parse_rollout_session_id("rollout-2026-01-31T09-11-23-.jsonl"), None);
    assert_eq!(parse_rollout_session_id("notes-2026-01-31T09-11-23-abc.jsonl"), None);
    assert_eq!(parse_rollout_session_id("rollout-2026-01-31T09-11-23-abc.txt"), None);
    assert_eq!(parse_rollout_session_id("rollout-short.jsonl"), None);
}

#[test]
fn json_string_field_decodes_escapes() {
    let text = "{\"cwd\":\"/a\\nb\",\"note\":\"u\\u0041x\"}";
    assert_eq!(extract_json_string_field(text, "cwd").as_deref(), Some("/a\nb"));
    assert_eq!(extract_json_string_field(text, "note").as_deref(), Some("uAx"));
    assert_eq!(extract_json_string_field(text, "missing"), None);
}

#[test]
fn json_string_field_ignores_invalid_unicode_escape() {
    let text = "{\"k\":\"a\\uZZZZb\"}";
    assert_eq!(extract_json_string_field(text, "k").as_deref(), Some("ab"));
}

#[test]
fn rollout_user_text_filter() {
    assert!(should_show_rollout_user_text("do the thing"));
    assert!(!should_show_rollout_user_text("   "));
    assert!(!should_show_rollout_user_text("# AGENTS.md instructions"));
    assert!(!should_show_rollout_user_text("<environment_context>home</environment_context>"));
    assert!(!should_show_rollout_user_text("before <INSTRUCTIONS> after"));
}

#[test]
fn rfc3339_parses_to_epoch_milliseconds() {
    assert_eq!(parse_rfc3339_ms("1970-01-01T00:00:00.000Z"), Some(0));
    assert_eq!(parse_rfc3339_ms("1970-01-02T00:00:00Z"), Some(86_400_000));
    assert_eq!(parse_rfc3339_ms("2026-01-31T09:11:23.415Z"), Some(1_769_850_683_415));
    assert_eq!(parse_rfc3339_ms("2026-01-31T09:11:23.415"), None);
    assert_eq!(parse_rfc3339_ms("not a time Z"), None);
    assert_eq!(parse_rfc3339_ms("1969-12-31T23:59:59.999Z"), None);
}

#[test]
fn civil_days_match_known_dates() {
    assert_eq!(days_from_civil(1970, 1, 1), 0);
    assert_eq!(days_from_civil(1969, 12, 31), -1);
    assert_eq!(days_from_civil(2000, 3, 1), 11017);
    assert_eq!(days_from_civil(2026, 1, 31), 20484);
}

#[test]
fn titles_are_trimmed_collapsed_and_cut() {
    assert_eq!(safe_title("  hello\nworld  "), "hello world");
    assert_eq!(safe_title("   "), "New session");
    let long = "x".repeat(80);
    let title = safe_title(&long);
    assert_eq!(title.chars().count(), 61);
    assert!(title.ends_with('\u{2026}'));
}

#[test]
fn citation_spans_are_stripped_with_preceding_spaces() {
    let text = format!("fact  {}cite{} done", '\u{e200}', '\u{e201}');
    assert_eq!(strip_tool_citations(&text), "fact done");
    let unterminated = format!("head {}rest", '\u{e200}');
    assert_eq!(strip_tool_citations(&unterminated), "head");
    assert_eq!(strip_tool_citations("plain"), "plain");
}

#[test]
fn yaml_scalars_unquote() {
    assert_eq!(unquote_yaml_scalar("  plain value "), "plain value");
    assert_eq!(unquote_yaml_scalar("\"a\\tb\""), "a\tb");
    assert_eq!(unquote_yaml_scalar("'single  '"), "single");
    assert_eq!(unquote_yaml_scalar(""), "");
}

#[test]
fn skill_front_matter_reads_name_and_description() {
    let text = "---\nname: \"web search\"\n# comment\ndescription: finds things\n---\nbody";
    let (name, desc) = parse_skill_front_matter(text);
    assert_eq!(name.as_deref(), Some("web search"));
    assert_eq!(desc.as_deref(), Some("finds things"));

    let no_fm = "name: x\n";
    assert_eq!(parse_skill_front_matter(no_fm), (None, None));
}

#[test]
fn skill_dedup_keeps_the_first_occurrence() {
    let mk = |name: &str, desc: &str| codex_warp::skills::SkillSummary {
        name: name.to_owned(),
        description: desc.to_owned(),
        path: format!("{name}/{desc}"),
    };
    let deduped = codex_warp::skills::dedup_skills(vec![
        mk("search", "first"),
        mk("browse", "only"),
        mk("search", "second"),
    ]);
    assert_eq!(deduped.len(), 2);
    assert_eq!(deduped[0].name, "search");
    assert_eq!(deduped[0].description, "first", "the first occurrence wins");
    assert_eq!(deduped[1].name, "browse");
}
