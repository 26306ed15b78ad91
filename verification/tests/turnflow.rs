//! End-to-end tests of the turn state machine against a scripted child.

use codex_warp::turn::{TurnAction, TurnMachine, TurnPhase};

fn parsed(line: &str) -> serde_json::Value {
    serde_json::from_str(line).expect("payload parses")
}

fn sent_line(acts: &[TurnAction]) -> Option<serde_json::Value> {
    acts.iter().find_map(|a| match a {
        TurnAction::SendLine(l) => Some(parsed(l)),
        _ => None,
    })
}

fn persisted_lines(acts: &[TurnAction]) -> Vec<serde_json::Value> {
    acts.iter()
        .filter_map(|a| match a {
            TurnAction::PersistLine(l) => Some(parsed(l)),
            _ => None,
        })
        .collect()
}

fn broadcasts<'a>(acts: &'a [TurnAction], event: &str) -> Vec<serde_json::Value> {
    acts.iter()
        .filter_map(|a| match a {
            TurnAction::Broadcast(e, d) if e == event => Some(parsed(d)),
            _ => None,
        })
        .collect()
}

fn start_fresh(thread_id: Option<&str>) -> TurnMachine {
    let (m, acts) = TurnMachine::start(
        "sid-1".to_owned(),
        "hello".to_owned(),
        None,
        thread_id.map(|t| t.to_owned()),
        "codex-warp-server",
        "0.1.0",
    );
    let init = sent_line(&acts).expect("initialize request");
    assert_eq!(init["id"], 1);
    assert_eq!(init["method"], "initialize");
    assert_eq!(init["params"]["clientInfo"]["name"], "codex-warp-server");
    m
}

fn drive_to_drain(m: &mut TurnMachine) {
    let a = m.on_line("{\"id\":1,\"result\":{}}", 1000);
    let start = sent_line(&a).expect("thread/start request");
    assert_eq!(start["method"], "thread/start");
    let a = m.on_line("{\"id\":2,\"result\":{\"thread\":{\"id\":\"t-1\"}}}", 1001);
    assert!(a.iter().any(|x| matches!(x, TurnAction::SetThreadId(t) if t == "t-1")));
    let turn = sent_line(&a).expect("turn/start request");
    assert_eq!(turn["method"], "turn/start");
    assert_eq!(turn["params"]["threadId"], "t-1");
    assert_eq!(turn["params"]["input"][0]["text"], "hello");
    let a = m.on_line("{\"id\":3,\"result\":{\"turn\":{\"id\":\"turn-9\"}}}", 1002);
    assert!(a.is_empty());
    assert_eq!(m.phase, TurnPhase::Drain);
}

#[test]
fn new_session_happy_path() {
    let mut m = start_fresh(None);
    drive_to_drain(&mut m);

    let a1 = m.on_line(
        "{\"method\":\"item/agentMessage/delta\",\"params\":{\"itemId\":\"m1\",\"delta\":\"Hi \"}}",
        1003,
    );
    let p1 = persisted_lines(&a1);
    assert_eq!(p1.len(), 1);
    assert_eq!(p1[0]["_ts_ms"], 1003);
    assert_eq!(p1[0]["method"], "item/agentMessage/delta");
    assert_eq!(broadcasts(&a1, "codex_event").len(), 1);

    let a2 = m.on_line(
        "{\"method\":\"item/agentMessage/delta\",\"params\":{\"itemId\":\"m1\",\"delta\":\"there\"}}",
        1004,
    );
    assert_eq!(persisted_lines(&a2).len(), 1);

    let a3 = m.on_line(
        "{\"method\":\"turn/completed\",\"params\":{\"turn\":{\"status\":\"completed\"}}}",
        1005,
    );
    assert_eq!(persisted_lines(&a3).len(), 1);
    assert_eq!(
        persisted_lines(&a1).len() + persisted_lines(&a2).len() + persisted_lines(&a3).len(),
        3,
        "the whole run persists exactly the three notifications"
    );
    assert!(a3.iter().any(|x| matches!(x, TurnAction::WriteConclusion(t) if t == "Hi there")));
    assert!(a3.iter().any(|x| matches!(
        x,
        TurnAction::SetStatus(codex_warp::meta::SessionStatus::Done)
    )));
    assert!(a3.iter().any(|x| matches!(x, TurnAction::RemoveHandle)));
    let finished = broadcasts(&a3, "codex_run_finished");
    assert_eq!(finished.len(), 1);
    assert_eq!(finished[0]["success"], true);
    assert_eq!(finished[0]["exit_code"], serde_json::Value::Null);
    assert_eq!(m.phase, TurnPhase::Done);
}

#[test]
fn resume_sends_thread_resume_before_turn_start() {
    let mut m = start_fresh(Some("t-1"));
    let a = m.on_line("{\"id\":1,\"result\":{}}", 1000);
    let resume = sent_line(&a).expect("thread/resume request");
    assert_eq!(resume["method"], "thread/resume");
    assert_eq!(resume["params"]["threadId"], "t-1");
    let a = m.on_line("{\"id\":2,\"result\":{\"thread\":{\"id\":\"t-1\"}}}", 1001);
    assert!(!a.iter().any(|x| matches!(x, TurnAction::SetThreadId(_))));
    let turn = sent_line(&a).expect("turn/start request");
    assert_eq!(turn["method"], "turn/start");
    assert_eq!(turn["params"]["threadId"], "t-1");
}

#[test]
fn failed_resume_falls_back_to_start_and_replaces_thread_id() {
    let mut m = start_fresh(Some("t-old"));
    let _ = m.on_line("{\"id\":1,\"result\":{}}", 1000);
    let a = m.on_line("{\"id\":2,\"error\":{\"code\":-1}}", 1001);
    let start = sent_line(&a).expect("thread/start after resume failure");
    assert_eq!(start["method"], "thread/start");
    let a = m.on_line("{\"id\":3,\"result\":{\"thread\":{\"id\":\"t-new\"}}}", 1002);
    assert!(a.iter().any(|x| matches!(x, TurnAction::SetThreadId(t) if t == "t-new")));
}

#[test]
fn cancel_mid_stream_interrupts_and_reports_no_exit_code() {
    let mut m = start_fresh(None);
    drive_to_drain(&mut m);
    let _ = m.on_line(
        "{\"method\":\"item/agentMessage/delta\",\"params\":{\"itemId\":\"m1\",\"delta\":\"Hi \"}}",
        1003,
    );
    let a = m.on_cancelled(1500);
    let interrupt = sent_line(&a).expect("turn/interrupt request");
    assert_eq!(interrupt["method"], "turn/interrupt");
    assert_eq!(interrupt["params"]["threadId"], "t-1");
    assert_eq!(interrupt["params"]["turnId"], "turn-9");
    let finished = broadcasts(&a, "codex_run_finished");
    assert_eq!(finished.len(), 1);
    assert_eq!(finished[0]["success"], false);
    assert_eq!(finished[0]["exit_code"], serde_json::Value::Null);
    assert!(a.iter().any(|x| matches!(
        x,
        TurnAction::SetStatus(codex_warp::meta::SessionStatus::Error)
    )));
    assert_eq!(m.phase, TurnPhase::Done);
}

#[test]
fn usage_updates_in_one_second_emit_one_metrics_event() {
    let mut m = start_fresh(None);
    drive_to_drain(&mut m);
    let mut metric_events = 0;
    let mut last_ctx = None;
    for total in [100u64, 200, 300, 400] {
        let line = format!(
            "{{\"method\":\"thread/tokenUsage/updated\",\"params\":{{\"modelContextWindow\":1000,\"tokenUsage\":{{\"last\":{{\"totalTokens\":{},\"inputTokens\":{},\"outputTokens\":0}}}}}}}}",
            total, total
        );
        let a = m.on_line(&line, 2000 + total / 100);
        assert!(persisted_lines(&a).is_empty(), "usage updates are never persisted");
        metric_events += broadcasts(&a, "codex_metrics").len();
        last_ctx = a.iter().find_map(|x| match x {
            TurnAction::PersistContext(s) => Some(*s),
            _ => None,
        });
    }

    let a = m.on_line(
        "{\"method\":\"turn/completed\",\"params\":{\"turn\":{\"status\":\"completed\"}}}",
        2010,
    );
    metric_events += broadcasts(&a, "codex_metrics").len();
    assert_eq!(metric_events, 1, "exactly one emission for the whole run");
    let record = a
        .iter()
        .find_map(|x| match x {
            TurnAction::AppendUsage(r) => Some(r),
            _ => None,
        })
        .expect("ledger record at finalize");
    assert_eq!(record.total_tokens, 400);
    assert_eq!(record.context_window, 1000);
    assert_eq!(record.thread_id.as_deref(), Some("t-1"));
    let ctx = last_ctx.expect("every update overwrites the context triple");
    assert_eq!(ctx.total_tokens, 400);
    assert_eq!(ctx.pct_left, 60);
    assert!(
        !a.iter().any(|x| matches!(x, TurnAction::PersistContext(_))),
        "finalize leaves the context triple to the updates"
    );
}

#[test]
fn interrupted_status_is_failure_without_exit_code() {
    let mut m = start_fresh(None);
    drive_to_drain(&mut m);
    let a = m.on_line(
        "{\"method\":\"turn/completed\",\"params\":{\"turn\":{\"status\":\"interrupted\"}}}",
        1005,
    );
    let finished = broadcasts(&a, "codex_run_finished");
    assert_eq!(finished[0]["success"], false);
    assert_eq!(finished[0]["exit_code"], serde_json::Value::Null);
    assert!(a.iter().any(|x| matches!(
        x,
        TurnAction::SetStatus(codex_warp::meta::SessionStatus::Error)
    )));
}

#[test]
fn unparseable_line_fails_the_turn() {
    let mut m = start_fresh(None);
    let a = m.on_line("not json", 1000);
    let finished = broadcasts(&a, "codex_run_finished");
    assert_eq!(finished.len(), 1);
    assert_eq!(finished[0]["success"], false);
    assert_eq!(finished[0]["exit_code"], 1);
    assert_eq!(m.phase, TurnPhase::Done);
}

#[test]
fn spawn_failure_reports_error_state() {
    let acts = codex_warp::turn::spawn_failure_actions("sid-9", "no such executable", 50);
    assert!(acts.iter().any(|x| matches!(
        x,
        TurnAction::SetStatus(codex_warp::meta::SessionStatus::Error)
    )));
    let logged = persisted_lines(&acts);
    assert_eq!(logged.len(), 1);
    assert_eq!(logged[0]["type"], "app/error");
    assert_eq!(logged[0]["message"], "no such executable");
    let finished: Vec<_> = acts
        .iter()
        .filter_map(|a| match a {
            TurnAction::Broadcast(e, d) if e == "codex_run_finished" => Some(parsed(d)),
            _ => None,
        })
        .collect();
    assert_eq!(finished[0]["exit_code"], 1);
    assert_eq!(finished[0]["success"], false);
}

#[test]
fn metrics_reopen_after_five_seconds_or_new_percent() {
    let mut m = start_fresh(None);
    drive_to_drain(&mut m);
    let usage = |total: u64| {
        format!(
            "{{\"method\":\"thread/tokenUsage/updated\",\"params\":{{\"modelContextWindow\":1000,\"tokenUsage\":{{\"last\":{{\"totalTokens\":{}}}}}}}}}",
            total
        )
    };
    let a = m.on_line(&usage(100), 10_000);
    assert_eq!(broadcasts(&a, "codex_metrics").len(), 1);
    let a = m.on_line(&usage(200), 11_000);
    assert_eq!(broadcasts(&a, "codex_metrics").len(), 0, "too soon after the last emission");
    let a = m.on_line(&usage(200), 20_000);
    assert_eq!(broadcasts(&a, "codex_metrics").len(), 1, "new percent, five seconds later");
    let a = m.on_line(&usage(200), 26_000);
    assert_eq!(broadcasts(&a, "codex_metrics").len(), 0, "percent unchanged since last emission");
    let a = m.on_line(&usage(300), 24_500);
    assert_eq!(broadcasts(&a, "codex_metrics").len(), 0, "new percent but too soon");
}

#[test]
fn initialize_error_reply_fails_the_turn() {
    let mut m = start_fresh(None);
    let a = m.on_line("{\"id\":1,\"error\":{\"code\":-32600}}", 1000);
    assert!(a.iter().any(|x| matches!(x, TurnAction::KillChild)));
    assert!(a.iter().any(|x| matches!(x, TurnAction::WriteErrorFiles(e) if e.starts_with("Initialize failed:"))));
    let finished = broadcasts(&a, "codex_run_finished");
    assert_eq!(finished[0]["exit_code"], 1);
    assert_eq!(m.phase, TurnPhase::Done);
}

#[test]
fn replies_with_foreign_ids_are_ignored() {
    let mut m = start_fresh(None);
    let a = m.on_line("{\"id\":77,\"result\":{}}", 1000);
    assert!(a.is_empty());
    let a = m.on_line("{\"id\":\"1\",\"result\":{}}", 1000);
    assert!(
        sent_line(&a).is_some(),
        "a string form of the pending id correlates like the number"
    );
}
