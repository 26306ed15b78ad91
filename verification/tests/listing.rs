//! Tests for the merged listing, the native archive entries, the run-handle
//! registry, the SSE backlog, and the on-disk record round trips.

use codex_warp::backlog::{
    effective_tail, event_backlog_entry, sort_backlog, stderr_backlog_entry, take_last_payloads,
};
use codex_warp::history::{
    conclusion_from_event_lines, load_codex_thread_titles, rename_in_global_state, title_for,
    try_find_codex_session_id,
};
use codex_warp::json::{json_to_string, parse_json};
use codex_warp::meta::{
    merge_native_into_local, meta_from_json, meta_to_json_line, sort_sessions, SessionMeta,
    SessionStatus,
};
use codex_warp::rollout::find_last_prompt_in_lines;
use codex_warp::runs::RunRegistry;
use codex_warp::service::{
    continue_plan, delete_found, max_records, native_session_meta_from_parts, new_session_meta,
    stop_plan, validate_prompt, ContinueError,
};
use codex_warp::usage::{extract_token_usage_snapshot, usage_record_from_json, usage_record_line};

fn meta(id: &str, created: u64, last_used: u64, cwd: Option<&str>) -> SessionMeta {
    SessionMeta {
        id: id.to_owned(),
        title: "t".to_owned(),
        created_at_ms: created,
        last_used_at_ms: last_used,
        cwd: cwd.map(|c| c.to_owned()),
        status: SessionStatus::Done,
        codex_session_id: None,
        context_window: None,
        context_used_tokens: None,
        context_left_pct: None,
        events_path: "e".to_owned(),
        stderr_path: "s".to_owned(),
        conclusion_path: "c".to_owned(),
    }
}

#[test]
fn merge_takes_earliest_creation_latest_use_and_local_cwd() {
    let local = meta("a", 100, 200, None);
    let native = meta("a", 50, 300, Some("/tmp"));
    let merged = merge_native_into_local(local, &native);
    assert_eq!(merged.created_at_ms, 50);
    assert_eq!(merged.last_used_at_ms, 300);
    assert_eq!(merged.cwd.as_deref(), Some("/tmp"));

    let local2 = meta("a", 10, 400, Some("/keep"));
    let merged2 = merge_native_into_local(local2, &native);
    assert_eq!(merged2.created_at_ms, 10);
    assert_eq!(merged2.last_used_at_ms, 400);
    assert_eq!(merged2.cwd.as_deref(), Some("/keep"));
}

#[test]
fn sessions_sort_most_recent_first() {
    let v = vec![meta("a", 10, 20, None), meta("b", 100, 5, None), meta("c", 1, 50, None)];
    let sorted = sort_sessions(v);
    let ids: Vec<&str> = sorted.iter().map(|m| m.id.as_str()).collect();
    assert_eq!(ids, ["b", "c", "a"]);
}

#[test]
fn native_entry_is_hidden_for_exec_rollouts() {
    let exec_orig = "codex_exec".to_owned();
    let entry = native_session_meta_from_parts(
        "abc",
        Some("/tmp".to_owned()),
        Some(&exec_orig),
        None,
        Some(&"do the thing".to_owned()),
        None,
        1,
        2,
        "p".to_owned(),
    );
    assert!(entry.is_none());

    let exec_src = "exec".to_owned();
    let entry2 = native_session_meta_from_parts(
        "abc",
        None,
        None,
        Some(&exec_src),
        Some(&"do the thing".to_owned()),
        Some("Named".to_owned()),
        1,
        2,
        "p".to_owned(),
    );
    assert!(entry2.is_none());
}

#[test]
fn native_entry_titles_from_last_prompt() {
    let prompt = "do the thing".to_owned();
    let entry = native_session_meta_from_parts(
        "abc",
        Some("/tmp".to_owned()),
        Some(&"codex".to_owned()),
        Some(&"chatgpt".to_owned()),
        Some(&prompt),
        None,
        11,
        22,
        "latest.jsonl".to_owned(),
    )
    .expect("visible entry");
    assert_eq!(entry.id, "abc");
    assert_eq!(entry.title, "do the thing");
    assert_eq!(entry.cwd.as_deref(), Some("/tmp"));
    assert_eq!(entry.status, SessionStatus::Done);
    assert_eq!(entry.codex_session_id.as_deref(), Some("abc"));

    let hidden = native_session_meta_from_parts(
        "abc",
        None,
        Some(&"codex".to_owned()),
        None,
        Some(&"# AGENTS.md stuff".to_owned()),
        None,
        1,
        2,
        "p".to_owned(),
    );
    assert!(hidden.is_none(), "harness text gives no title");
}

#[test]
fn last_prompt_scans_backwards_and_filters() {
    let lines = vec![
        "{\"type\":\"event_msg\",\"payload\":{\"type\":\"user_message\",\"message\":\"do the thing\"}}".to_owned(),
        "{\"type\":\"response_item\",\"payload\":{\"type\":\"message\",\"role\":\"user\",\"content\":[{\"type\":\"input_text\",\"text\":\"# AGENTS.md\"}]}}".to_owned(),
    ];
    assert_eq!(find_last_prompt_in_lines(&lines).as_deref(), Some("do the thing"));

    let broken = vec!["not json".to_owned()];
    assert_eq!(find_last_prompt_in_lines(&broken), None);
}

#[test]
fn at_most_one_live_turn_per_session() {
    let mut reg = RunRegistry::new();
    assert!(reg.try_acquire("s1".to_owned()));
    assert!(!reg.try_acquire("s1".to_owned()), "second turn is rejected");
    assert!(reg.try_acquire("s2".to_owned()));
    reg.set_pid("s1", 42);

    let first = reg.take_cancel("s1").expect("handle exists");
    assert_eq!(first, (true, Some(42)));
    let second = reg.take_cancel("s1").expect("handle still exists");
    assert_eq!(second, (false, Some(42)), "stop is idempotent");

    reg.remove("s1");
    assert!(reg.take_cancel("s1").is_none());
    assert!(reg.contains("s2"));
}

#[test]
fn continue_is_refused_while_running_and_when_unknown() {
    let r = continue_plan(
        true,
        Some(meta("a", 1, 2, None)),
        None,
        None,
        9,
        "e".to_owned(),
        "s".to_owned(),
        "c".to_owned(),
    );
    assert!(matches!(r, Err(ContinueError::AlreadyRunning)));

    let r = continue_plan(false, None, None, None, 9, "e".to_owned(), "s".to_owned(), "c".to_owned());
    assert!(matches!(r, Err(ContinueError::NotFound)));

    let r = match continue_plan(
        false,
        None,
        Some(meta("a", 1, 2, Some("/native"))),
        None,
        9,
        "e".to_owned(),
        "s".to_owned(),
        "c".to_owned(),
    ) {
        Ok(m) => m,
        Err(_) => panic!("continue against a native-only session succeeds"),
    };
    assert_eq!(r.status, SessionStatus::Running);
    assert_eq!(r.last_used_at_ms, 9);
    assert_eq!(r.cwd.as_deref(), Some("/native"));
}

#[test]
fn stop_and_delete_outcomes() {
    assert_eq!(stop_plan(None, false), (None, false));
    assert_eq!(stop_plan(Some((true, Some(7))), true), (Some(7), true));
    assert_eq!(stop_plan(Some((false, None)), true), (None, false));

    assert!(delete_found(true, false));
    assert!(delete_found(false, true));
    assert!(!delete_found(false, false));
}

#[test]
fn backlog_is_strictly_ordered_and_truncated() {
    let e1 = event_backlog_entry("sid", "{\"x\":1,\"_ts_ms\":300}", 999, 0);
    let e2 = event_backlog_entry("sid", "{\"x\":2,\"_ts_ms\":100}", 999, 1);
    let e3 = stderr_backlog_entry("sid", "warning", 200, 2);
    let sorted = sort_backlog(vec![e1, e2, e3]);
    let ts: Vec<u64> = sorted.iter().map(|e| e.ts_ms).collect();
    assert_eq!(ts, [100, 200, 300]);

    let tail = take_last_payloads(sorted, 2);
    assert_eq!(tail.len(), 2);
    let p0: serde_json::Value = serde_json::from_str(&tail[0]).unwrap();
    assert_eq!(p0["ts_ms"], 200);
    assert_eq!(p0["stream"], "stderr");
    let p1: serde_json::Value = serde_json::from_str(&tail[1]).unwrap();
    assert_eq!(p1["ts_ms"], 300);
}

#[test]
fn backlog_tail_clamps() {
    assert_eq!(effective_tail(None), 4000);
    assert_eq!(effective_tail(Some(0)), 0);
    assert_eq!(effective_tail(Some(10)), 50);
    assert_eq!(effective_tail(Some(60_000)), 50_000);
    assert_eq!(effective_tail(Some(700)), 700);
    assert_eq!(max_records(None), 5000);
    assert_eq!(max_records(Some(0)), 1);
    assert_eq!(max_records(Some(300_000)), 200_000);
}

#[test]
fn meta_json_round_trip_on_disk_shape() {
    let mut m = meta("abc", 5, 0, Some("/w"));
    m.codex_session_id = Some("t-1".to_owned());
    m.context_left_pct = Some(60);
    let line = meta_to_json_line(&m);
    let v = parse_json(&line).expect("meta serializes to JSON");
    let back = meta_from_json(&v).expect("meta reads back");
    assert_eq!(back.id, "abc");
    assert_eq!(back.codex_session_id.as_deref(), Some("t-1"));
    assert_eq!(back.created_at_ms, 5);
    assert_eq!(back.last_used_at_ms, 5, "zero last-used defaults to creation time");
    assert_eq!(back.context_left_pct, Some(60));
    assert_eq!(back.status, SessionStatus::Done);
}

#[test]
fn usage_record_round_trip() {
    let snapshot_line = "{\"method\":\"thread/tokenUsage/updated\",\"params\":{\"modelContextWindow\":1000,\"tokenUsage\":{\"last\":{\"totalTokens\":400,\"inputTokens\":300,\"outputTokens\":80,\"reasoningOutputTokens\":20,\"cachedInputTokens\":10}}}}";
    let v = parse_json(snapshot_line).unwrap();
    let s = extract_token_usage_snapshot(&v).expect("snapshot");
    assert_eq!(s.pct_left, 60);
    let rec = codex_warp::usage::UsageRecord::from_snapshot(7, "sid".to_owned(), None, s);
    let line = usage_record_line(&rec);
    let back = usage_record_from_json(&parse_json(&line).unwrap()).expect("record reads back");
    assert_eq!(back.total_tokens, 400);
    assert_eq!(back.cached_input_tokens, 10);
    assert_eq!(back.ts_ms, 7);
}

#[test]
fn snapshot_total_falls_back_to_sum() {
    let line = "{\"method\":\"thread/tokenUsage/updated\",\"params\":{\"tokenUsage\":{\"modelContextWindow\":\"1000\",\"last\":{\"inputTokens\":5,\"outputTokens\":3,\"reasoningOutputTokens\":2}}}}";
    let s = extract_token_usage_snapshot(&parse_json(line).unwrap()).expect("snapshot");
    assert_eq!(s.window, 1000);
    assert_eq!(s.total_tokens, 10);

    let zero = "{\"method\":\"thread/tokenUsage/updated\",\"params\":{\"tokenUsage\":{\"last\":{}}}}";
    assert!(extract_token_usage_snapshot(&parse_json(zero).unwrap()).is_none());
}

#[test]
fn thread_id_recovery_from_event_log() {
    let lines = vec![
        "{\"type\":\"other\"}".to_owned(),
        "{\"method\":\"thread/started\",\"params\":{\"threadId\":\"t-5\"}}".to_owned(),
    ];
    assert_eq!(try_find_codex_session_id(&lines).as_deref(), Some("t-5"));

    let legacy = vec!["{\"type\":\"thread.started\",\"thread_id\":\"t-6\"}".to_owned()];
    assert_eq!(try_find_codex_session_id(&legacy).as_deref(), Some("t-6"));
}

#[test]
fn conclusion_recovery_takes_last_agent_message() {
    let lines = vec![
        "{\"method\":\"item/completed\",\"params\":{\"item\":{\"type\":\"agentMessage\",\"text\":\"first\"}}}".to_owned(),
        "{\"type\":\"item.completed\",\"item\":{\"type\":\"agent_message\",\"text\":\"second\"}}".to_owned(),
        "nonsense line".to_owned(),
    ];
    assert_eq!(conclusion_from_event_lines(&lines).as_deref(), Some("second"));
}

#[test]
fn thread_titles_load_and_rename() {
    let state = "{\"thread-titles\":{\"titles\":{\"t-1\":\" First \",\"t-2\":\"\",\"t-3\":7}}}";
    let titles = load_codex_thread_titles(state);
    assert_eq!(titles.len(), 1);
    assert_eq!(title_for(&titles, "t-1").as_deref(), Some("First"));
    assert_eq!(title_for(&titles, "t-2"), None);

    let root = parse_json(state);
    let renamed = rename_in_global_state(root.as_ref(), "t-9", "Renamed");
    let text = json_to_string(&renamed);
    let v: serde_json::Value = serde_json::from_str(&text).unwrap();
    assert_eq!(v["thread-titles"]["titles"]["t-9"], "Renamed");
    assert_eq!(v["thread-titles"]["order"][0], "t-9");

    let again = rename_in_global_state(Some(&renamed), "t-9", "Renamed twice");
    let v2: serde_json::Value =
        serde_json::from_str(&json_to_string(&again)).unwrap();
    assert_eq!(v2["thread-titles"]["titles"]["t-9"], "Renamed twice");
    assert_eq!(v2["thread-titles"]["order"].as_array().unwrap().len(), 1);
}

#[test]
fn prompts_and_ids_validate() {
    assert_eq!(validate_prompt("  hi  ").as_deref(), Some("hi"));
    assert_eq!(validate_prompt("   "), None);

    let canon = codex_warp::service::canonical_uuid(" 67E5504410B1426F9247BB680E5FE0C8 ")
        .expect("valid uuid in simple form");
    assert_eq!(canon, "67e55044-10b1-426f-9247-bb680e5fe0c8");
    assert!(codex_warp::service::canonical_uuid("not-a-uuid").is_none());
    assert_eq!(codex_warp::service::new_session_id().len(), 36);

    let m = new_session_meta(
        "id-1".to_owned(),
        "  hello world  ",
        77,
        None,
        "e".to_owned(),
        "s".to_owned(),
        "c".to_owned(),
    );
    assert_eq!(m.title, "hello world");
    assert_eq!(m.status, SessionStatus::Running);
    assert_eq!(m.created_at_ms, 77);
}

#[test]
fn backlog_ties_break_by_arrival_sequence() {
    let a = stderr_backlog_entry("sid", "first", 500, 0);
    let b = stderr_backlog_entry("sid", "second", 500, 1);
    let sorted = sort_backlog(vec![b, a]);
    let first: serde_json::Value = serde_json::from_str(&sorted[0].payload).unwrap();
    let second: serde_json::Value = serde_json::from_str(&sorted[1].payload).unwrap();
    assert_eq!(first["raw"], "first");
    assert_eq!(second["raw"], "second");
}

#[test]
fn prompt_marker_carries_type_and_stamp() {
    let line = codex_warp::service::prompt_event_line("hello", 42);
    let v: serde_json::Value = serde_json::from_str(&line).unwrap();
    assert_eq!(v["type"], "app.prompt");
    assert_eq!(v["prompt"], "hello");
    assert_eq!(v["_ts_ms"], 42);
}
