//! The typed SSE payloads the service broadcasts, built as JSON values.

use vstd::prelude::*;
use crate::json::{Json, JsonView, json_text, json_to_string};

verus! {

/// The view of a `codex_event` payload: session id, ingestion time, source
/// stream label, the raw line, and its parsed form when there is one.
pub open spec fn spec_ui_event(
    session_id: Seq<char>,
    ts_ms: u64,
    stream: Seq<char>,
    raw: Seq<char>,
    json: Option<JsonView>,
) -> JsonView {
    JsonView::Obj(
        seq![
            ("session_id"@, JsonView::Str(session_id)),
            ("ts_ms"@, JsonView::UInt(ts_ms)),
            ("stream"@, JsonView::Str(stream)),
            ("raw"@, JsonView::Str(raw)),
            (
                "json"@,
                match json {
                    Option::Some(v) => v,
                    Option::None => JsonView::Null,
                },
            ),
        ],
    )
}

/// Builds the serialized `codex_event` payload
/// (see [`spec_ui_event`]).
pub fn ui_event_line(
    session_id: &str,
    ts_ms: u64,
    stream: &str,
    raw: &str,
    json: Option<&Json>,
) -> (r: String)
    ensures
        r@ == json_text(
            spec_ui_event(
                session_id@,
                ts_ms,
                stream@,
                raw@,
                match json {
                    Some(v) => Some(v.deep()),
                    None => None,
                },
            ),
        ),
{
    let jval: Json = match json {
        Some(v) => v.deep_clone(),
        None => Json::Null,
    };
    let mut pairs: Vec<(String, Json)> = Vec::new();
    let e0 = ("session_id".to_owned(), Json::Str(session_id.to_owned()));
    let e1 = ("ts_ms".to_owned(), Json::UInt(ts_ms));
    let e2 = ("stream".to_owned(), Json::Str(stream.to_owned()));
    let e3 = ("raw".to_owned(), Json::Str(raw.to_owned()));
    let e4 = ("json".to_owned(), jval);
    let ghost evs: Seq<(Seq<char>, JsonView)> = seq![
        (e0.0@, e0.1.deep()),
        (e1.0@, e1.1.deep()),
        (e2.0@, e2.1.deep()),
        (e3.0@, e3.1.deep()),
        (e4.0@, e4.1.deep()),
    ];
    pairs.push(e0);
    pairs.push(e1);
    pairs.push(e2);
    pairs.push(e3);
    pairs.push(e4);
    let obj = Json::Obj(pairs);
    proof {
        let target = spec_ui_event(
            session_id@,
            ts_ms,
            stream@,
            raw@,
            match json {
                Some(v) => Some(v.deep()),
                None => None,
            },
        )->Obj_0;
        assert(obj.deep()->Obj_0 =~= evs);
        assert(evs =~= target);
    }
    json_to_string(&obj)
}

/// The view of a `codex_run_finished` payload.
pub open spec fn spec_run_finished(
    session_id: Seq<char>,
    ts_ms: u64,
    exit_code: Option<i32>,
    success: bool,
) -> JsonView {
    JsonView::Obj(
        seq![
            ("session_id"@, JsonView::Str(session_id)),
            ("ts_ms"@, JsonView::UInt(ts_ms)),
            (
                "exit_code"@,
                match exit_code {
                    Option::Some(c) => if c >= 0 {
                        JsonView::UInt(c as u64)
                    } else {
                        JsonView::Int(c as i64)
                    },
                    Option::None => JsonView::Null,
                },
            ),
            ("success"@, JsonView::Bool(success)),
        ],
    )
}

/// Builds the serialized `codex_run_finished` payload
/// (see [`spec_run_finished`]).
pub fn run_finished_line(session_id: &str, ts_ms: u64, exit_code: Option<i32>, success: bool) -> (r:
    String)
    ensures
        r@ == json_text(spec_run_finished(session_id@, ts_ms, exit_code, success)),
{
    let code: Json = match exit_code {
        Some(c) => {
            if c >= 0 {
                Json::UInt(c as u64)
            } else {
                Json::Int(c as i64)
            }
        },
        None => Json::Null,
    };
    let mut pairs: Vec<(String, Json)> = Vec::new();
    let e0 = ("session_id".to_owned(), Json::Str(session_id.to_owned()));
    let e1 = ("ts_ms".to_owned(), Json::UInt(ts_ms));
    let e2 = ("exit_code".to_owned(), code);
    let e3 = ("success".to_owned(), Json::Bool(success));
    let ghost evs: Seq<(Seq<char>, JsonView)> = seq![
        (e0.0@, e0.1.deep()),
        (e1.0@, e1.1.deep()),
        (e2.0@, e2.1.deep()),
        (e3.0@, e3.1.deep()),
    ];
    pairs.push(e0);
    pairs.push(e1);
    pairs.push(e2);
    pairs.push(e3);
    let obj = Json::Obj(pairs);
    proof {
        let target = spec_run_finished(session_id@, ts_ms, exit_code, success)->Obj_0;
        assert(obj.deep()->Obj_0 =~= evs);
        assert(evs =~= target);
    }
    json_to_string(&obj)
}

/// The view of a `codex_metrics` payload.
pub open spec fn spec_context_metrics(
    session_id: Seq<char>,
    ts_ms: u64,
    pct_left: u8,
    used: u64,
    window: u64,
) -> JsonView {
    JsonView::Obj(
        seq![
            ("session_id"@, JsonView::Str(session_id)),
            ("ts_ms"@, JsonView::UInt(ts_ms)),
            ("context_left_pct"@, JsonView::UInt(pct_left as u64)),
            ("context_used_tokens"@, JsonView::UInt(used)),
            ("context_window"@, JsonView::UInt(window)),
        ],
    )
}

/// Builds the serialized `codex_metrics` payload
/// (see [`spec_context_metrics`]).
pub fn context_metrics_line(session_id: &str, ts_ms: u64, pct_left: u8, used: u64, window: u64) -> (
    r: String)
    ensures
        r@ == json_text(spec_context_metrics(session_id@, ts_ms, pct_left, used, window)),
{
    let mut pairs: Vec<(String, Json)> = Vec::new();
    let e0 = ("session_id".to_owned(), Json::Str(session_id.to_owned()));
    let e1 = ("ts_ms".to_owned(), Json::UInt(ts_ms));
    let e2 = ("context_left_pct".to_owned(), Json::UInt(pct_left as u64));
    let e3 = ("context_used_tokens".to_owned(), Json::UInt(used));
    let e4 = ("context_window".to_owned(), Json::UInt(window));
    let ghost evs: Seq<(Seq<char>, JsonView)> = seq![
        (e0.0@, e0.1.deep()),
        (e1.0@, e1.1.deep()),
        (e2.0@, e2.1.deep()),
        (e3.0@, e3.1.deep()),
        (e4.0@, e4.1.deep()),
    ];
    pairs.push(e0);
    pairs.push(e1);
    pairs.push(e2);
    pairs.push(e3);
    pairs.push(e4);
    let obj = Json::Obj(pairs);
    proof {
        let target = spec_context_metrics(session_id@, ts_ms, pct_left, used, window)->Obj_0;
        assert(obj.deep()->Obj_0 =~= evs);
        assert(evs =~= target);
    }
    json_to_string(&obj)
}

} // verus!
