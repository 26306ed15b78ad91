//! The per-turn protocol logic: JSON-RPC request lines, response
//! correlation, notification persistence, agent-text capture, and the
//! turn-completion table.

use vstd::prelude::*;
use crate::json::{
    Json, JsonView, ObjBuilder, jv_get, jv_get_str, jv_get_from, jv_set_from, jv_obj_set,
    json_text, json_to_string,
};

verus! {

/// The three notification methods that are consumed but never written to
/// the event log nor re-broadcast.
pub open spec fn spec_suppressed_method(m: Seq<char>) -> bool {
    m == "thread/tokenUsage/updated"@ || m == "account/rateLimits/updated"@ || m
        == "item/reasoning/summaryPartAdded"@
}

/// Whether a notification is suppressed from persistence.
pub open spec fn spec_is_suppressed(v: JsonView) -> bool {
    match jv_get_str(v, "method"@) {
        Option::Some(m) => spec_suppressed_method(m),
        Option::None => false,
    }
}

/// Decides suppression (see [`spec_is_suppressed`]).
pub fn is_suppressed(msg: &Json) -> (r: bool)
    ensures
        r == spec_is_suppressed(msg.deep()),
{
    let m = msg.get_str("method");
    crate::text::opt_string_is(m, "thread/tokenUsage/updated") || crate::text::opt_string_is(
        m,
        "account/rateLimits/updated",
    ) || crate::text::opt_string_is(m, "item/reasoning/summaryPartAdded")
}

/// The event-log line a notification produces at ingestion time `ts`:
/// nothing for a suppressed method; otherwise the message with an extra
/// `_ts_ms` field (objects only — another shape is persisted unchanged),
/// serialized to one line.
pub open spec fn spec_persist_line(v: JsonView, ts: u64) -> Option<Seq<char>> {
    if spec_is_suppressed(v) {
        None
    } else {
        Some(json_text(jv_obj_set(v, "_ts_ms"@, JsonView::UInt(ts))))
    }
}

/// Produces the event-log line of a notification
/// (see [`spec_persist_line`]).
pub fn persist_event_line(msg: &Json, ts: u64) -> (r: Option<String>)
    ensures
        match r {
            Some(l) => spec_persist_line(msg.deep(), ts) == Some(l@),
            None => spec_persist_line(msg.deep(), ts) is None,
        },
{
    if is_suppressed(msg) {
        return None;
    }
    let stamped = msg.with_field("_ts_ms".to_owned(), Json::UInt(ts));
    Some(json_to_string(&stamped))
}

/// The event log produced by a received notification sequence and its
/// ingestion stamps: each non-suppressed message contributes one line, in
/// received order.
pub open spec fn spec_event_log(msgs: Seq<JsonView>, stamps: Seq<u64>) -> Seq<Seq<char>>
    decreases msgs.len(),
{
    if msgs.len() == 0 || msgs.len() != stamps.len() {
        Seq::empty()
    } else {
        spec_event_log(msgs.drop_last(), stamps.drop_last()) + (
        match spec_persist_line(msgs.last(), stamps.last()) {
            Option::Some(l) => seq![l],
            Option::None => Seq::empty(),
        })
    }
}

/// The non-suppressed messages with their stamps, in received order.
pub open spec fn spec_kept(msgs: Seq<JsonView>, stamps: Seq<u64>) -> Seq<(JsonView, u64)>
    decreases msgs.len(),
{
    if msgs.len() == 0 || msgs.len() != stamps.len() {
        Seq::empty()
    } else {
        spec_kept(msgs.drop_last(), stamps.drop_last()) + (if spec_is_suppressed(msgs.last()) {
            Seq::empty()
        } else {
            seq![(msgs.last(), stamps.last())]
        })
    }
}

proof fn lemma_set_from_get(
    pairs: Seq<(Seq<char>, JsonView)>,
    key: Seq<char>,
    val: JsonView,
    i: int,
)
    requires
        0 <= i <= pairs.len(),
    ensures
        jv_get_from(jv_set_from(pairs, key, val, i), key, i) == Some(val),
        forall|k: int| 0 <= k < i ==> #[trigger] jv_set_from(pairs, key, val, i)[k] == pairs[k],
        jv_set_from(pairs, key, val, i).len() >= pairs.len(),
    decreases pairs.len() - i,
{
    if i >= pairs.len() {
        assert(jv_set_from(pairs, key, val, i) == pairs.push((key, val)));
        assert(pairs.push((key, val))[pairs.len() as int] == (key, val));
    } else if pairs[i].0 == key {
    } else {
        lemma_set_from_get(pairs, key, val, i + 1);
    }
}

/// Reading back the stamp: the `_ts_ms` field of a stamped event object is
/// exactly its ingestion time.
pub proof fn lemma_stamp_read_back(v: JsonView, ts: u64)
    requires
        v is Obj,
    ensures
        jv_get(jv_obj_set(v, "_ts_ms"@, JsonView::UInt(ts)), "_ts_ms"@) == Some(
            JsonView::UInt(ts),
        ),
{
    let pairs = v->Obj_0;
    lemma_set_from_get(pairs, "_ts_ms"@, JsonView::UInt(ts), 0);
}

/// Event-log fidelity: the event log of a received notification sequence
/// holds exactly one line for every non-suppressed message, in received
/// order; each line is the serialization of that message with its
/// ingestion stamp added, an object's stamp field reads back its stamp,
/// and when the stamps never decrease, neither do the stamps of the
/// persisted lines.
pub proof fn lemma_event_log_fidelity(msgs: Seq<JsonView>, stamps: Seq<u64>)
    requires
        msgs.len() == stamps.len(),
    ensures
        spec_event_log(msgs, stamps).len() == spec_kept(msgs, stamps).len(),
        forall|k: int|
            0 <= k < spec_kept(msgs, stamps).len() ==> #[trigger] spec_event_log(msgs, stamps)[k]
                == json_text(
                jv_obj_set(
                    spec_kept(msgs, stamps)[k].0,
                    "_ts_ms"@,
                    JsonView::UInt(spec_kept(msgs, stamps)[k].1),
                ),
            ),
        forall|k: int|
            0 <= k < spec_kept(msgs, stamps).len() && (#[trigger] spec_kept(msgs, stamps)[k].0)
                is Obj ==> !spec_is_suppressed(spec_kept(msgs, stamps)[k].0),
        (forall|i: int, j: int| 0 <= i < j < stamps.len() ==> stamps[i] <= stamps[j]) ==> (forall|
            i: int,
            j: int,
        |
            0 <= i < j < spec_kept(msgs, stamps).len() ==> (#[trigger] spec_kept(msgs, stamps)[i]).1
                <= (#[trigger] spec_kept(msgs, stamps)[j]).1),
    decreases msgs.len(),
{
    if msgs.len() > 0 {
        let mh = msgs.drop_last();
        let sh = stamps.drop_last();
        lemma_event_log_fidelity(mh, sh);
        if forall|i: int, j: int| 0 <= i < j < stamps.len() ==> stamps[i] <= stamps[j] {
            assert forall|i: int, j: int| 0 <= i < j < sh.len() implies sh[i] <= sh[j] by {
                assert(stamps[i] <= stamps[j]);
            }
            let kept = spec_kept(msgs, stamps);
            let kh = spec_kept(mh, sh);
            lemma_kept_stamp_bound(mh, sh);
            assert forall|i: int, j: int| 0 <= i < j < kept.len() implies (#[trigger] kept[i]).1
                <= (#[trigger] kept[j]).1 by {
                if j < kh.len() {
                    assert(kept[i] == kh[i] && kept[j] == kh[j]);
                } else {
                    assert(kept[j] == (msgs.last(), stamps.last()));
                    assert(kept[i] == kh[i]);
                    if sh.len() > 0 {
                        assert(stamps[sh.len() - 1] <= stamps[stamps.len() - 1]);
                    }
                }
            }
        }
    }
}

proof fn lemma_kept_stamp_bound(msgs: Seq<JsonView>, stamps: Seq<u64>)
    requires
        msgs.len() == stamps.len(),
        forall|i: int, j: int| 0 <= i < j < stamps.len() ==> stamps[i] <= stamps[j],
    ensures
        forall|k: int|
            0 <= k < spec_kept(msgs, stamps).len() ==> stamps.len() > 0 && (#[trigger] spec_kept(
                msgs,
                stamps,
            )[k]).1 <= stamps.last(),
    decreases msgs.len(),
{
    if msgs.len() > 0 {
        let mh = msgs.drop_last();
        let sh = stamps.drop_last();
        assert forall|i: int, j: int| 0 <= i < j < sh.len() implies sh[i] <= sh[j] by {
            assert(stamps[i] <= stamps[j]);
        }
        lemma_kept_stamp_bound(mh, sh);
        assert forall|k: int|
            0 <= k < spec_kept(msgs, stamps).len() implies (#[trigger] spec_kept(msgs, stamps)[k]).1
            <= stamps.last() by {
            let kh = spec_kept(mh, sh);
            if k < kh.len() {
                assert(spec_kept(msgs, stamps)[k] == kh[k]);
                if sh.len() > 0 {
                    assert(stamps[sh.len() - 1] <= stamps[stamps.len() - 1]);
                }
            } else {
                assert(spec_kept(msgs, stamps)[k] == (msgs.last(), stamps.last()));
            }
        }
    }
}

/// Whether a line correlates with the pending request: its `id` field holds
/// `expected` as a JSON number, or its decimal text as a string.
pub open spec fn spec_id_matches(v: JsonView, expected: i64) -> bool {
    match jv_get(v, "id"@) {
        Option::Some(JsonView::UInt(u)) => expected >= 0 && u == expected,
        Option::Some(JsonView::Int(i)) => i == expected,
        Option::Some(JsonView::Str(s)) => s == crate::num::spec_i64_digits(expected as int),
        _ => false,
    }
}

/// Decides response correlation (see [`spec_id_matches`]).
pub fn jsonrpc_id_matches(msg: &Json, expected: i64) -> (r: bool)
    ensures
        r == spec_id_matches(msg.deep(), expected),
{
    match msg.get("id") {
        None => false,
        Some(Json::UInt(u)) => expected >= 0 && *u == (expected as u64),
        Some(Json::Int(i)) => *i == expected,
        Some(Json::Str(s)) => {
            let e = crate::num::i64_to_string(expected);
            crate::text::str_eq(s.as_str(), e.as_str())
        },
        Some(_) => false,
    }
}

/// The view of a JSON-RPC request: `{"id", "method", "params"}`.
pub open spec fn spec_request(id: i64, method: Seq<char>, params: JsonView) -> JsonView {
    JsonView::Obj(
        seq![
            (
                "id"@,
                if id >= 0 {
                    JsonView::UInt(id as u64)
                } else {
                    JsonView::Int(id)
                },
            ),
            ("method"@, JsonView::Str(method)),
            ("params"@, params),
        ],
    )
}

/// Builds the wire line of a JSON-RPC request
/// (see [`spec_request`]).
pub fn jsonrpc_request_line(id: i64, method: &str, params: Json) -> (r: String)
    ensures
        r@ == json_text(spec_request(id, method@, params.deep())),
{
    let ghost pv = params.deep();
    let idv: Json = if id >= 0 {
        Json::UInt(id as u64)
    } else {
        Json::Int(id)
    };
    let mut b = ObjBuilder::new();
    b.field("id", idv);
    b.field("method", Json::Str(method.to_owned()));
    b.field("params", params);
    proof {
        assert(b.view() =~= spec_request(id, method@, pv)->Obj_0);
    }
    let j = b.finish();
    json_to_string(&j)
}

/// The outcome table fixed for `turn/completed`: `completed` is the one
/// success, `interrupted` ends without an exit code, anything else is a
/// failure with exit code 1.
pub open spec fn spec_turn_outcome(status: Seq<char>) -> (bool, Option<i32>) {
    if status == "completed"@ {
        (true, None)
    } else if status == "interrupted"@ {
        (false, None)
    } else {
        (false, Some(1i32))
    }
}

/// Maps a turn status to (success, exit code)
/// (see [`spec_turn_outcome`]).
pub fn turn_outcome(status: &str) -> (r: (bool, Option<i32>))
    ensures
        r == spec_turn_outcome(status@),
{
    if crate::text::str_eq(status, "completed") {
        (true, None)
    } else if crate::text::str_eq(status, "interrupted") {
        (false, None)
    } else {
        (false, Some(1i32))
    }
}

/// The running capture of the agent's streamed answer.
pub struct AgentCapture {
    pub item_id: Option<String>,
    pub text: String,
}

/// The ghost view of a capture.
pub open spec fn capture_vw(c: AgentCapture) -> (Option<Seq<char>>, Seq<char>) {
    (
        match c.item_id {
            Option::Some(s) => Some(s@),
            Option::None => None,
        },
        c.text@,
    )
}

/// How one notification advances the capture: an `item/agentMessage/delta`
/// appends its delta, clearing first when the item changed; an
/// `item/completed` for an `agentMessage` replaces the text outright; all
/// other messages leave the capture alone.
pub open spec fn spec_capture_step(st: (Option<Seq<char>>, Seq<char>), v: JsonView) -> (
    Option<Seq<char>>,
    Seq<char>,
) {
    match jv_get_str(v, "method"@) {
        Option::None => st,
        Option::Some(m) => {
            if m == "item/agentMessage/delta"@ {
                match jv_get(v, "params"@) {
                    Option::None => st,
                    Option::Some(params) => match jv_get_str(params, "itemId"@) {
                        Option::None => st,
                        Option::Some(item_id) => {
                            let delta = match jv_get_str(params, "delta"@) {
                                Option::Some(d) => d,
                                Option::None => Seq::empty(),
                            };
                            if st.0 == Some(item_id) {
                                (st.0, st.1 + delta)
                            } else {
                                (Some(item_id), delta)
                            }
                        },
                    },
                }
            } else if m == "item/completed"@ {
                match jv_get(v, "params"@) {
                    Option::None => st,
                    Option::Some(params) => match jv_get(params, "item"@) {
                        Option::None => st,
                        Option::Some(item) => {
                            if jv_get_str(item, "type"@) == Some("agentMessage"@) {
                                match jv_get_str(item, "text"@) {
                                    Option::Some(text) => (jv_get_str(item, "id"@), text),
                                    Option::None => st,
                                }
                            } else {
                                st
                            }
                        },
                    },
                }
            } else {
                st
            }
        },
    }
}

/// Advances the capture on one notification
/// (see [`spec_capture_step`]).
pub fn capture_step(cap: &mut AgentCapture, msg: &Json)
    ensures
        capture_vw(*final(cap)) == spec_capture_step(capture_vw(*old(cap)), msg.deep()),
{
    let method = match msg.get_str("method") {
        Some(m) => m,
        None => {
            return ;
        },
    };
    if crate::text::str_eq(method.as_str(), "item/agentMessage/delta") {
        let params = match msg.get("params") {
            Some(p) => p,
            None => {
                return ;
            },
        };
        let item_id = match params.get_str("itemId") {
            Some(s) => s,
            None => {
                return ;
            },
        };
        let same = match &cap.item_id {
            Some(cur) => crate::text::str_eq(cur.as_str(), item_id.as_str()),
            None => false,
        };
        let delta: String = match params.get_str("delta") {
            Some(d) => d.clone(),
            None => String::new(),
        };
        if same {
            cap.text.append(delta.as_str());
        } else {
            cap.item_id = Some(item_id.clone());
            cap.text = delta;
        }
        return ;
    }
    if crate::text::str_eq(method.as_str(), "item/completed") {
        let params = match msg.get("params") {
            Some(p) => p,
            None => {
                return ;
            },
        };
        let item = match params.get("item") {
            Some(i) => i,
            None => {
                return ;
            },
        };
        if !crate::text::opt_string_is(item.get_str("type"), "agentMessage") {
            return ;
        }
        let text: String = match item.get_str("text") {
            Some(t) => t.clone(),
            None => {
                return ;
            },
        };
        cap.item_id = match item.get_str("id") {
            Some(s) => Some(s.clone()),
            None => None,
        };
        cap.text = text;
    }
}

/// The thread id in a `thread/resume` or `thread/start` result:
/// `result.thread.id`, when it is a string.
pub open spec fn spec_thread_id_of(result: JsonView) -> Option<Seq<char>> {
    match jv_get(result, "thread"@) {
        Option::Some(t) => jv_get_str(t, "id"@),
        Option::None => None,
    }
}

/// Reads the thread id out of a result (see [`spec_thread_id_of`]).
pub fn thread_id_of(result: &Json) -> (r: Option<String>)
    ensures
        crate::rollout::opt_str_view(r) == spec_thread_id_of(result.deep()),
{
    match result.get("thread") {
        Some(t) => match t.get_str("id") {
            Some(s) => Some(s.clone()),
            None => None,
        },
        None => None,
    }
}

/// The turn id in a `turn/start` result: `result.turn.id` as text, taking a
/// string as it stands and an integer in its decimal form.
pub open spec fn spec_turn_id_of(result: JsonView) -> Option<Seq<char>> {
    match jv_get(result, "turn"@) {
        Option::Some(t) => match jv_get(t, "id"@) {
            Option::Some(JsonView::Str(s)) => Some(s),
            Option::Some(JsonView::UInt(u)) => if u <= i64::MAX {
                Some(crate::num::spec_i64_digits(u as int))
            } else {
                None
            },
            Option::Some(JsonView::Int(i)) => Some(crate::num::spec_i64_digits(i as int)),
            _ => None,
        },
        Option::None => None,
    }
}

/// Reads the turn id out of a result (see [`spec_turn_id_of`]).
pub fn turn_id_of(result: &Json) -> (r: Option<String>)
    ensures
        crate::rollout::opt_str_view(r) == spec_turn_id_of(result.deep()),
{
    match result.get("turn") {
        Some(t) => match t.get("id") {
            Some(Json::Str(s)) => Some(s.clone()),
            Some(Json::UInt(u)) => {
                if *u <= i64::MAX as u64 {
                    Some(crate::num::i64_to_string(*u as i64))
                } else {
                    None
                }
            },
            Some(Json::Int(i)) => Some(crate::num::i64_to_string(*i)),
            _ => None,
        },
        None => None,
    }
}

} // verus!

verus! {

/// Where a turn stands: awaiting one of the four responses, draining
/// notifications, or finished.
#[derive(Clone, Copy, PartialEq, Eq, Structural, Debug)]
pub enum TurnPhase {
    AwaitInit,
    AwaitResume,
    AwaitStart,
    AwaitTurnStart,
    Drain,
    Done,
}

/// One thing the runner must do in the outside world, in order.
pub enum TurnAction {
    /// Write this line, newline-terminated, to the child's stdin.
    SendLine(String),
    /// Append this line to the event log.
    PersistLine(String),
    /// Publish this (event name, payload) pair on the session's channel.
    Broadcast(String, String),
    /// Persist this thread id into the session metadata.
    SetThreadId(String),
    /// Overwrite the metadata's context triple from this snapshot.
    PersistContext(crate::usage::TokenUsageSnapshot),
    /// Append this record to the usage ledger.
    AppendUsage(crate::usage::UsageRecord),
    /// Write this text to the conclusion file.
    WriteConclusion(String),
    /// Write this error to the stderr log and an error conclusion.
    WriteErrorFiles(String),
    /// Record this status in the session metadata.
    SetStatus(crate::meta::SessionStatus),
    /// Detach the session's run handle.
    RemoveHandle,
    /// Close stdin, wait briefly for the child, then force-kill it.
    ReapChild,
    /// Kill the child outright.
    KillChild,
}

/// The per-turn state machine. The runner owns the child process and the
/// files; this machine owns every decision: which request to send next,
/// what to persist and broadcast, and how the turn ends.
pub struct TurnMachine {
    pub phase: TurnPhase,
    pub session_id: String,
    pub prompt: String,
    pub cwd: Option<String>,
    pub initial_thread_id: Option<String>,
    pub effective_thread_id: Option<String>,
    pub turn_id: Option<String>,
    pub next_id: i64,
    pub pending_id: i64,
    pub capture: AgentCapture,
    pub meter: crate::usage::MeterState,
    pub last_snapshot: Option<crate::usage::TokenUsageSnapshot>,
    pub cancelled: bool,
    pub success: bool,
    pub exit_code: Option<i32>,
}

/// The `initialize` params: the client's identity.
pub open spec fn spec_init_params(name: Seq<char>, version: Seq<char>) -> JsonView {
    JsonView::Obj(
        seq![
            (
                "clientInfo"@,
                JsonView::Obj(
                    seq![("name"@, JsonView::Str(name)), ("version"@, JsonView::Str(version))],
                ),
            ),
        ],
    )
}

/// The `thread/resume` params: thread id, working directory, and the
/// repository-check override.
pub open spec fn spec_resume_params(tid: Seq<char>, cwd: Option<Seq<char>>) -> JsonView {
    JsonView::Obj(
        seq![
            ("threadId"@, JsonView::Str(tid)),
            (
                "cwd"@,
                match cwd {
                    Option::Some(c) => JsonView::Str(c),
                    Option::None => JsonView::Null,
                },
            ),
            ("config"@, JsonView::Obj(seq![("skip_git_repo_check"@, JsonView::Bool(true))])),
        ],
    )
}

/// The `thread/start` params.
pub open spec fn spec_start_params(cwd: Option<Seq<char>>) -> JsonView {
    JsonView::Obj(
        seq![
            (
                "cwd"@,
                match cwd {
                    Option::Some(c) => JsonView::Str(c),
                    Option::None => JsonView::Null,
                },
            ),
            ("config"@, JsonView::Obj(seq![("skip_git_repo_check"@, JsonView::Bool(true))])),
        ],
    )
}

/// The `turn/start` params: the thread id and one text input.
pub open spec fn spec_turn_params(tid: Seq<char>, prompt: Seq<char>) -> JsonView {
    JsonView::Obj(
        seq![
            ("threadId"@, JsonView::Str(tid)),
            (
                "input"@,
                JsonView::Arr(
                    seq![
                        JsonView::Obj(
                            seq![
                                ("type"@, JsonView::Str("text"@)),
                                ("text"@, JsonView::Str(prompt)),
                            ],
                        ),
                    ],
                ),
            ),
        ],
    )
}

/// The `turn/interrupt` params.
pub open spec fn spec_interrupt_params(tid: Seq<char>, turn_id: Seq<char>) -> JsonView {
    JsonView::Obj(
        seq![("threadId"@, JsonView::Str(tid)), ("turnId"@, JsonView::Str(turn_id))],
    )
}

fn json_of_opt_cwd(cwd: &Option<String>) -> (r: Json)
    ensures
        r.deep() == (match crate::meta::opt_view(*cwd) {
            Some(c) => JsonView::Str(c),
            None => JsonView::Null,
        }),
{
    match cwd {
        Some(c) => Json::Str(c.clone()),
        None => Json::Null,
    }
}

fn config_json() -> (r: Json)
    ensures
        r.deep() == JsonView::Obj(seq![("skip_git_repo_check"@, JsonView::Bool(true))]),
{
    let mut b = ObjBuilder::new();
    b.field("skip_git_repo_check", Json::Bool(true));
    proof {
        assert(b.view() =~= seq![("skip_git_repo_check"@, JsonView::Bool(true))]);
    }
    b.finish()
}

fn init_params_json(name: &str, version: &str) -> (r: Json)
    ensures
        r.deep() == spec_init_params(name@, version@),
{
    let mut inner = ObjBuilder::new();
    inner.field("name", Json::Str(name.to_owned()));
    inner.field("version", Json::Str(version.to_owned()));
    proof {
        assert(inner.view() =~= seq![
            ("name"@, JsonView::Str(name@)),
            ("version"@, JsonView::Str(version@)),
        ]);
    }
    let mut b = ObjBuilder::new();
    b.field("clientInfo", inner.finish());
    proof {
        assert(b.view() =~= spec_init_params(name@, version@)->Obj_0);
    }
    b.finish()
}

fn resume_params_json(tid: &str, cwd: &Option<String>) -> (r: Json)
    ensures
        r.deep() == spec_resume_params(tid@, crate::meta::opt_view(*cwd)),
{
    let mut b = ObjBuilder::new();
    b.field("threadId", Json::Str(tid.to_owned()));
    b.field("cwd", json_of_opt_cwd(cwd));
    b.field("config", config_json());
    proof {
        assert(b.view() =~= spec_resume_params(tid@, crate::meta::opt_view(*cwd))->Obj_0);
    }
    b.finish()
}

fn start_params_json(cwd: &Option<String>) -> (r: Json)
    ensures
        r.deep() == spec_start_params(crate::meta::opt_view(*cwd)),
{
    let mut b = ObjBuilder::new();
    b.field("cwd", json_of_opt_cwd(cwd));
    b.field("config", config_json());
    proof {
        assert(b.view() =~= spec_start_params(crate::meta::opt_view(*cwd))->Obj_0);
    }
    b.finish()
}

fn turn_params_json(tid: &str, prompt: &str) -> (r: Json)
    ensures
        r.deep() == spec_turn_params(tid@, prompt@),
{
    let mut item = ObjBuilder::new();
    item.field("type", Json::Str("text".to_owned()));
    item.field("text", Json::Str(prompt.to_owned()));
    proof {
        assert(item.view() =~= seq![
            ("type"@, JsonView::Str("text"@)),
            ("text"@, JsonView::Str(prompt@)),
        ]);
    }
    let mut arr: Vec<Json> = Vec::new();
    arr.push(item.finish());
    let input = Json::Arr(arr);
    let mut b = ObjBuilder::new();
    b.field("threadId", Json::Str(tid.to_owned()));
    b.field("input", input);
    proof {
        assert(b.view()[1].1->Arr_0 =~= spec_turn_params(tid@, prompt@)->Obj_0[1].1->Arr_0);
        assert(b.view() =~= spec_turn_params(tid@, prompt@)->Obj_0);
    }
    b.finish()
}

fn interrupt_params_json(tid: &str, turn_id: &str) -> (r: Json)
    ensures
        r.deep() == spec_interrupt_params(tid@, turn_id@),
{
    let mut b = ObjBuilder::new();
    b.field("threadId", Json::Str(tid.to_owned()));
    b.field("turnId", Json::Str(turn_id.to_owned()));
    proof {
        assert(b.view() =~= spec_interrupt_params(tid@, turn_id@)->Obj_0);
    }
    b.finish()
}

} // verus!

verus! {

/// Whether `acts` holds, somewhere, a `codex_run_finished` broadcast with
/// this payload.
pub open spec fn has_run_finished(
    acts: Seq<TurnAction>,
    sid: Seq<char>,
    now: u64,
    exit_code: Option<i32>,
    success: bool,
) -> bool {
    exists|i: int|
        0 <= i < acts.len() && ((#[trigger] acts[i]) matches TurnAction::Broadcast(e, d)
            && e@ == "codex_run_finished"@ && d@ == json_text(
            crate::events::spec_run_finished(sid, now, exit_code, success),
        ))
}

/// Whether `acts` detaches the run handle.
pub open spec fn removes_handle(acts: Seq<TurnAction>) -> bool {
    exists|i: int| 0 <= i < acts.len() && (#[trigger] acts[i]) is RemoveHandle
}

/// Whether `acts` records this status.
pub open spec fn sets_status(acts: Seq<TurnAction>, status: crate::meta::SessionStatus) -> bool {
    exists|i: int|
        0 <= i < acts.len() && ((#[trigger] acts[i]) matches TurnAction::SetStatus(s) && s
            == status)
}

/// Whether `acts` persists this event-log line.
pub open spec fn persists_line(acts: Seq<TurnAction>, line: Seq<char>) -> bool {
    exists|i: int|
        0 <= i < acts.len() && ((#[trigger] acts[i]) matches TurnAction::PersistLine(l) && l@
            == line)
}

/// Whether `acts` persists anything.
pub open spec fn persists_any(acts: Seq<TurnAction>) -> bool {
    exists|i: int| 0 <= i < acts.len() && (#[trigger] acts[i]) is PersistLine
}

/// How many event-log lines `acts` appends.
pub open spec fn persist_count(acts: Seq<TurnAction>) -> int
    decreases acts.len(),
{
    if acts.len() == 0 {
        0
    } else {
        persist_count(acts.drop_last()) + (if acts.last() is PersistLine {
            1int
        } else {
            0int
        })
    }
}

/// How many `codex_metrics` broadcasts `acts` holds.
pub open spec fn metrics_count(acts: Seq<TurnAction>) -> int
    decreases acts.len(),
{
    if acts.len() == 0 {
        0
    } else {
        metrics_count(acts.drop_last()) + (match acts.last() {
            TurnAction::Broadcast(e, d) => if e@ == "codex_metrics"@ {
                1int
            } else {
                0int
            },
            _ => 0int,
        })
    }
}

pub broadcast proof fn lemma_persist_count_push(s: Seq<TurnAction>, x: TurnAction)
    ensures
        #[trigger] persist_count(s.push(x)) == persist_count(s) + (if x is PersistLine {
            1int
        } else {
            0int
        }),
{
    assert(s.push(x).drop_last() =~= s);
}

pub broadcast proof fn lemma_metrics_count_push(s: Seq<TurnAction>, x: TurnAction)
    ensures
        #[trigger] metrics_count(s.push(x)) == metrics_count(s) + (match x {
            TurnAction::Broadcast(e, d) => if e@ == "codex_metrics"@ {
                1int
            } else {
                0int
            },
            _ => 0int,
        }),
{
    assert(s.push(x).drop_last() =~= s);
}

/// How many usage-ledger records `acts` appends.
pub open spec fn usage_count(acts: Seq<TurnAction>) -> int
    decreases acts.len(),
{
    if acts.len() == 0 {
        0
    } else {
        usage_count(acts.drop_last()) + (if acts.last() is AppendUsage {
            1int
        } else {
            0int
        })
    }
}

pub broadcast proof fn lemma_usage_count_push(s: Seq<TurnAction>, x: TurnAction)
    ensures
        #[trigger] usage_count(s.push(x)) == usage_count(s) + (if x is AppendUsage {
            1int
        } else {
            0int
        }),
{
    assert(s.push(x).drop_last() =~= s);
}

/// All three counts distribute over concatenation.
pub proof fn lemma_counts_concat(a: Seq<TurnAction>, b: Seq<TurnAction>)
    ensures
        persist_count(a + b) == persist_count(a) + persist_count(b),
        metrics_count(a + b) == metrics_count(a) + metrics_count(b),
        usage_count(a + b) == usage_count(a) + usage_count(b),
    decreases b.len(),
{
    if b.len() == 0 {
        assert(a + b =~= a);
    } else {
        lemma_counts_concat(a, b.drop_last());
        assert((a + b).drop_last() =~= a + b.drop_last());
        assert((a + b).last() == b.last());
    }
}

proof fn lemma_event_names() 
    ensures
        "codex_run_finished"@ != "codex_metrics"@,
        "codex_event"@ != "codex_metrics"@,
{
    reveal_strlit("codex_run_finished");
    reveal_strlit("codex_metrics");
    reveal_strlit("codex_event");
    assert(("codex_run_finished"@).len() == 18);
    assert(("codex_metrics"@).len() == 13);
    assert(("codex_event"@).len() == 11);
}

impl TurnMachine {
    /// Opens a turn: the machine in its initial state, plus the
    /// `initialize` request to send (request id 1).
    pub fn start(
        session_id: String,
        prompt: String,
        cwd: Option<String>,
        thread_id: Option<String>,
        client_name: &str,
        client_version: &str,
    ) -> (r: (TurnMachine, Vec<TurnAction>))
        ensures
            r.0.phase == TurnPhase::AwaitInit,
            r.0.session_id@ == session_id@,
            r.0.prompt@ == prompt@,
            crate::meta::opt_view(r.0.cwd) == crate::meta::opt_view(cwd),
            crate::meta::opt_view(r.0.initial_thread_id) == crate::meta::opt_view(thread_id),
            crate::meta::opt_view(r.0.effective_thread_id) == crate::meta::opt_view(thread_id),
            r.0.turn_id is None,
            r.0.next_id == 2 && r.0.pending_id == 1,
            capture_vw(r.0.capture) == (None::<Seq<char>>, Seq::<char>::empty()),
            r.0.meter.last_emit_ms == 0 && r.0.meter.last_pct is None,
            r.0.last_snapshot is None,
            !r.0.cancelled && !r.0.success && r.0.exit_code == Some(1i32),
            r.1@.len() == 1,
            r.1@[0] matches TurnAction::SendLine(l) && l@ == json_text(
                spec_request(1, "initialize"@, spec_init_params(client_name@, client_version@)),
            ),
    {
        let params = init_params_json(client_name, client_version);
        let line = jsonrpc_request_line(1, "initialize", params);
        let m = TurnMachine {
            phase: TurnPhase::AwaitInit,
            session_id,
            prompt,
            cwd,
            initial_thread_id: crate::meta::clone_opt(&thread_id),
            effective_thread_id: thread_id,
            turn_id: None,
            next_id: 2,
            pending_id: 1,
            capture: AgentCapture { item_id: None, text: String::new() },
            meter: crate::usage::MeterState::new(),
            last_snapshot: None,
            cancelled: false,
            success: false,
            exit_code: Some(1i32),
        };
        let mut acts: Vec<TurnAction> = Vec::new();
        acts.push(TurnAction::SendLine(line));
        (m, acts)
    }

    /// Ends the turn on an error before the drain completes: the child is
    /// killed, the error is written out, the session is marked failed, the
    /// handle detached, and `codex_run_finished` broadcast.
    fn fail(&mut self, error: String, exit_code: Option<i32>, now: u64) -> (acts: Vec<TurnAction>)
        ensures
            final(self).phase == TurnPhase::Done,
            !final(self).success,
            final(self).exit_code == exit_code,
            final(self).session_id@ == old(self).session_id@,
            final(self).initial_thread_id == old(self).initial_thread_id,
            final(self).effective_thread_id == old(self).effective_thread_id,
            final(self).turn_id == old(self).turn_id,
            final(self).capture == old(self).capture,
            final(self).meter == old(self).meter,
            final(self).last_snapshot == old(self).last_snapshot,
            acts@.len() == 5,
            acts@[0] is KillChild,
            acts@[1] matches TurnAction::WriteErrorFiles(e) && e@ == error@,
            acts@[2] matches TurnAction::SetStatus(s) && s == crate::meta::SessionStatus::Error,
            acts@[3] is RemoveHandle,
            acts@[4] matches TurnAction::Broadcast(e, d) && e@ == "codex_run_finished"@ && d@
                == json_text(
                crate::events::spec_run_finished(old(self).session_id@, now, exit_code, false),
            ),
            has_run_finished(acts@, old(self).session_id@, now, exit_code, false),
            removes_handle(acts@),
            !persists_any(acts@),
            persist_count(acts@) == 0,
            metrics_count(acts@) == 0,
            usage_count(acts@) == 0,
    {
        broadcast use {lemma_persist_count_push, lemma_metrics_count_push, lemma_usage_count_push};

        self.phase = TurnPhase::Done;
        self.success = false;
        self.exit_code = exit_code;
        let payload = crate::events::run_finished_line(
            self.session_id.as_str(),
            now,
            exit_code,
            false,
        );
        let mut acts: Vec<TurnAction> = Vec::new();
        acts.push(TurnAction::KillChild);
        acts.push(TurnAction::WriteErrorFiles(error));
        acts.push(TurnAction::SetStatus(crate::meta::SessionStatus::Error));
        acts.push(TurnAction::RemoveHandle);
        acts.push(TurnAction::Broadcast("codex_run_finished".to_owned(), payload));
        proof {
            lemma_event_names();
            assert(acts@[4] matches TurnAction::Broadcast(e, d) && e@ == "codex_run_finished"@);
        }
        acts
    }

    /// Ends the drain: appends the usage-ledger record from the last
    /// snapshot (the metadata's context triple is already current, since
    /// every snapshot update persists it, and the metrics throttle alone
    /// decides `codex_metrics` emissions), writes the captured conclusion
    /// (with citation spans stripped) when it is not blank, reaps the
    /// child, records the final status, detaches the handle, and
    /// broadcasts `codex_run_finished`.
    fn finalize(&mut self, now: u64) -> (acts: Vec<TurnAction>)
        ensures
            final(self).phase == TurnPhase::Done,
            final(self).success == old(self).success,
            final(self).exit_code == old(self).exit_code,
            final(self).session_id@ == old(self).session_id@,
            final(self).effective_thread_id == old(self).effective_thread_id,
            final(self).initial_thread_id == old(self).initial_thread_id,
            final(self).turn_id == old(self).turn_id,
            final(self).capture == old(self).capture,
            final(self).meter == old(self).meter,
            final(self).last_snapshot == old(self).last_snapshot,
            final(self).pending_id == old(self).pending_id,
            final(self).next_id == old(self).next_id,
            !persists_any(acts@),
            persist_count(acts@) == 0,
            metrics_count(acts@) == 0,
            usage_count(acts@) == (if old(self).last_snapshot is Some {
                1int
            } else {
                0int
            }),
            has_run_finished(
                acts@,
                old(self).session_id@,
                now,
                old(self).exit_code,
                old(self).success,
            ),
            removes_handle(acts@),
            sets_status(
                acts@,
                if old(self).success {
                    crate::meta::SessionStatus::Done
                } else {
                    crate::meta::SessionStatus::Error
                },
            ),
            old(self).last_snapshot matches Some(s) ==> exists|i: int|
                0 <= i < acts@.len() && ((#[trigger] acts@[i]) matches TurnAction::AppendUsage(r)
                    && r.vw() == (crate::usage::UsageRecord {
                    ts_ms: now,
                    session_id: old(self).session_id,
                    thread_id: old(self).effective_thread_id,
                    total_tokens: s.total_tokens,
                    input_tokens: s.input_tokens,
                    output_tokens: s.output_tokens,
                    reasoning_output_tokens: s.reasoning_output_tokens,
                    cached_input_tokens: s.cached_input_tokens,
                    context_window: s.window,
                }).vw()),
            ({
                let cleaned = crate::text::spec_strip_citations(capture_vw(old(self).capture).1);
                crate::text::spec_trim(cleaned).len() > 0 ==> exists|i: int|
                    0 <= i < acts@.len() && ((#[trigger] acts@[i])
                        matches TurnAction::WriteConclusion(t) && t@ == cleaned)
            }),
    {
        broadcast use {lemma_persist_count_push, lemma_metrics_count_push, lemma_usage_count_push};

        self.phase = TurnPhase::Done;
        let mut acts: Vec<TurnAction> = Vec::new();
        let ghost mut usage_idx: int = -1;
        match self.last_snapshot {
            Some(s) => {
                let rec = crate::usage::UsageRecord::from_snapshot(
                    now,
                    self.session_id.clone(),
                    crate::meta::clone_opt(&self.effective_thread_id),
                    s,
                );
                acts.push(TurnAction::AppendUsage(rec));
                proof {
                    usage_idx = 0;
                }
            },
            None => {},
        }
        let cleaned = crate::text::strip_tool_citations(self.capture.text.as_str());
        let cleaned_chars = crate::text::chars_of(cleaned.as_str());
        let trimmed = crate::text::trim_chars(&cleaned_chars);
        let ghost mut conc_idx: int = -1;
        if trimmed.len() > 0 {
            proof {
                conc_idx = acts@.len() as int;
            }
            acts.push(TurnAction::WriteConclusion(cleaned));
        }
        acts.push(TurnAction::ReapChild);
        let status = if self.success {
            crate::meta::SessionStatus::Done
        } else {
            crate::meta::SessionStatus::Error
        };
        let ghost p1: int = acts@.len() as int;
        acts.push(TurnAction::SetStatus(status));
        acts.push(TurnAction::RemoveHandle);
        let payload = crate::events::run_finished_line(
            self.session_id.as_str(),
            now,
            self.exit_code,
            self.success,
        );
        let ghost p2: int = acts@.len() as int;
        acts.push(TurnAction::Broadcast("codex_run_finished".to_owned(), payload));
        proof {
            lemma_event_names();
            assert(acts@[p2] matches TurnAction::Broadcast(e, d) && e@ == "codex_run_finished"@);
            assert(acts@[p1] matches TurnAction::SetStatus(s));
            assert(acts@[p1 + 1] is RemoveHandle);
            if usage_idx >= 0 {
                assert(acts@[usage_idx] matches TurnAction::AppendUsage(r));
            }
            if conc_idx >= 0 {
                assert(acts@[conc_idx] matches TurnAction::WriteConclusion(t));
            }
            if crate::text::spec_trim(
                crate::text::spec_strip_citations(capture_vw(old(self).capture).1),
            ).len() > 0 {
                assert(conc_idx >= 0);
            }
        }
        acts
    }

    /// Handles the child's stdout closing: an error before the turn
    /// started, the end of the drain afterwards.
    pub fn on_closed(&mut self, now: u64) -> (acts: Vec<TurnAction>)
        requires
            old(self).phase != TurnPhase::Done,
        ensures
            final(self).phase == TurnPhase::Done,
            !final(self).success,
            removes_handle(acts@),
            has_run_finished(acts@, old(self).session_id@, now, Some(1i32), false),
            sets_status(acts@, crate::meta::SessionStatus::Error),
            persist_count(acts@) == 0,
            metrics_count(acts@) == 0,
            usage_count(acts@) == (if old(self).phase == TurnPhase::Drain && old(
                self,
            ).last_snapshot is Some {
                1int
            } else {
                0int
            }),
            old(self).phase == TurnPhase::Drain ==> ({
                let cleaned = crate::text::spec_strip_citations(capture_vw(old(self).capture).1);
                crate::text::spec_trim(cleaned).len() > 0 ==> exists|i: int|
                    0 <= i < acts@.len() && ((#[trigger] acts@[i])
                        matches TurnAction::WriteConclusion(t) && t@ == cleaned)
            }),
            old(self).phase == TurnPhase::Drain ==> (old(self).last_snapshot matches Some(s)
                ==> exists|i: int|
                0 <= i < acts@.len() && ((#[trigger] acts@[i]) matches TurnAction::AppendUsage(r)
                    && r.vw() == (crate::usage::UsageRecord {
                    ts_ms: now,
                    session_id: old(self).session_id,
                    thread_id: old(self).effective_thread_id,
                    total_tokens: s.total_tokens,
                    input_tokens: s.input_tokens,
                    output_tokens: s.output_tokens,
                    reasoning_output_tokens: s.reasoning_output_tokens,
                    cached_input_tokens: s.cached_input_tokens,
                    context_window: s.window,
                }).vw())),
    {
        if matches!(self.phase, TurnPhase::Drain) {
            self.success = false;
            self.exit_code = Some(1i32);
            self.finalize(now)
        } else {
            self.fail("codex app-server stdout closed".to_owned(), Some(1i32), now)
        }
    }

    /// Handles cancellation: the turn ends now, without an exit code; when
    /// a turn was running and its ids are known, a best-effort
    /// `turn/interrupt` is written first.
    pub fn on_cancelled(&mut self, now: u64) -> (acts: Vec<TurnAction>)
        requires
            old(self).phase != TurnPhase::Done,
        ensures
            final(self).phase == TurnPhase::Done,
            !final(self).success,
            final(self).exit_code is None,
            removes_handle(acts@),
            has_run_finished(acts@, old(self).session_id@, now, None, false),
            sets_status(acts@, crate::meta::SessionStatus::Error),
            persist_count(acts@) == 0,
            metrics_count(acts@) == 0,
            usage_count(acts@) == (if old(self).phase == TurnPhase::Drain && old(
                self,
            ).last_snapshot is Some {
                1int
            } else {
                0int
            }),
            old(self).phase == TurnPhase::Drain ==> ({
                let cleaned = crate::text::spec_strip_citations(capture_vw(old(self).capture).1);
                crate::text::spec_trim(cleaned).len() > 0 ==> exists|i: int|
                    0 <= i < acts@.len() && ((#[trigger] acts@[i])
                        matches TurnAction::WriteConclusion(t) && t@ == cleaned)
            }),
            old(self).phase == TurnPhase::Drain ==> (old(self).last_snapshot matches Some(s)
                ==> exists|i: int|
                0 <= i < acts@.len() && ((#[trigger] acts@[i]) matches TurnAction::AppendUsage(r)
                    && r.vw() == (crate::usage::UsageRecord {
                    ts_ms: now,
                    session_id: old(self).session_id,
                    thread_id: old(self).effective_thread_id,
                    total_tokens: s.total_tokens,
                    input_tokens: s.input_tokens,
                    output_tokens: s.output_tokens,
                    reasoning_output_tokens: s.reasoning_output_tokens,
                    cached_input_tokens: s.cached_input_tokens,
                    context_window: s.window,
                }).vw())),
            (old(self).phase == TurnPhase::Drain && old(self).effective_thread_id is Some && old(self).turn_id is Some) ==> (acts@[0] matches TurnAction::SendLine(l) && l@ == json_text(
                spec_request(
                    old(self).next_id,
                    "turn/interrupt"@,
                    spec_interrupt_params(
                        old(self).effective_thread_id->0@,
                        old(self).turn_id->0@,
                    ),
                ),
            )),
    {
        broadcast use {lemma_persist_count_push, lemma_metrics_count_push, lemma_usage_count_push};

        if matches!(self.phase, TurnPhase::Drain) {
            self.cancelled = true;
            self.success = false;
            self.exit_code = None;
            let mut acts: Vec<TurnAction> = Vec::new();
            match (&self.effective_thread_id, &self.turn_id) {
                (Some(tid), Some(turn)) => {
                    let params = interrupt_params_json(tid.as_str(), turn.as_str());
                    let line = jsonrpc_request_line(self.next_id, "turn/interrupt", params);
                    acts.push(TurnAction::SendLine(line));
                },
                _ => {},
            }
            let ghost pre = acts@;
            let ghost snap = self.last_snapshot;
            let ghost cap = self.capture;
            let mut tail = self.finalize(now);
            let ghost tv = tail@;
            acts.append(&mut tail);
            proof {
                assert(acts@ == pre + tv);
                lemma_counts_concat(pre, tv);
                let i = choose|i: int| 0 <= i < tv.len() && (#[trigger] tv[i]) is RemoveHandle;
                assert(acts@[pre.len() + i] == tv[i]);
                let j = choose|j: int|
                    0 <= j < tv.len() && ((#[trigger] tv[j]) matches TurnAction::Broadcast(e, d)
                        && e@ == "codex_run_finished"@ && d@ == json_text(
                        crate::events::spec_run_finished(old(self).session_id@, now, None, false),
                    ));
                assert(acts@[pre.len() + j] == tv[j]);
                let k = choose|k: int|
                    0 <= k < tv.len() && ((#[trigger] tv[k]) matches TurnAction::SetStatus(s) && s
                        == crate::meta::SessionStatus::Error);
                assert(acts@[pre.len() + k] == tv[k]);
                if snap is Some {
                    let s = snap->0;
                    let u = choose|u: int|
                        0 <= u < tv.len() && ((#[trigger] tv[u]) matches TurnAction::AppendUsage(r)
                            && r.vw() == (crate::usage::UsageRecord {
                            ts_ms: now,
                            session_id: old(self).session_id,
                            thread_id: old(self).effective_thread_id,
                            total_tokens: s.total_tokens,
                            input_tokens: s.input_tokens,
                            output_tokens: s.output_tokens,
                            reasoning_output_tokens: s.reasoning_output_tokens,
                            cached_input_tokens: s.cached_input_tokens,
                            context_window: s.window,
                        }).vw());
                    assert(acts@[pre.len() + u] == tv[u]);
                }
                let cleaned = crate::text::spec_strip_citations(capture_vw(cap).1);
                if crate::text::spec_trim(cleaned).len() > 0 {
                    let w = choose|w: int|
                        0 <= w < tv.len() && ((#[trigger] tv[w])
                            matches TurnAction::WriteConclusion(t) && t@ == cleaned);
                    assert(acts@[pre.len() + w] == tv[w]);
                }
            }
            acts
        } else {
            self.fail("Cancelled.".to_owned(), None, now)
        }
    }
}

} // verus!

verus! {

/// The `params.turn.status` of a `turn/completed` notification, the empty
/// string when absent.
pub open spec fn spec_completed_status(v: JsonView) -> Seq<char> {
    match jv_get(v, "params"@) {
        Option::Some(p) => match jv_get(p, "turn"@) {
            Option::Some(t) => match jv_get_str(t, "status"@) {
                Option::Some(s) => s,
                Option::None => Seq::empty(),
            },
            Option::None => Seq::empty(),
        },
        Option::None => Seq::empty(),
    }
}

/// Whether this notification passes the metrics throttle: only a usage
/// snapshot arriving during the drain whose percent-left and timing the
/// throttle accepts.
pub open spec fn spec_notification_emits(
    phase: TurnPhase,
    meter: crate::usage::MeterState,
    v: JsonView,
    now: u64,
) -> bool {
    phase == TurnPhase::Drain && match crate::usage::spec_usage_snapshot(v) {
        Option::Some(s) => crate::usage::spec_should_emit(meter, s.pct_left, now),
        Option::None => false,
    }
}

/// Whether a stdout line produces an event-log line: it parses, carries a
/// `method`, and that method is not suppressed.
pub open spec fn spec_line_persists(raw: Seq<char>) -> bool {
    match crate::json::json_of(raw) {
        Option::Some(v) => jv_get_str(v, "method"@) is Some && !spec_is_suppressed(v),
        Option::None => false,
    }
}

/// Whether a stdout line produces a `codex_metrics` broadcast: a parsed
/// notification whose snapshot passes the throttle during the drain.
pub open spec fn spec_line_emits(
    phase: TurnPhase,
    meter: crate::usage::MeterState,
    raw: Seq<char>,
    now: u64,
) -> bool {
    match crate::json::json_of(raw) {
        Option::Some(v) => jv_get_str(v, "method"@) is Some && spec_notification_emits(
            phase,
            meter,
            v,
            now,
        ),
        Option::None => false,
    }
}

/// Whether a correlated reply carries a usable result: no `error` field and
/// a `result` field.
pub open spec fn spec_reply_ok(v: JsonView) -> bool {
    jv_get(v, "error"@) is None && jv_get(v, "result"@) is Some
}

/// The thread id a resume or start reply resolves to: the id in its result
/// when one is there, else the machine's current one.
pub open spec fn spec_resolved_tid(v: JsonView, current: Option<Seq<char>>) -> Option<Seq<char>> {
    match spec_thread_id_of(jv_get(v, "result"@)->0) {
        Option::Some(t) => Some(t),
        Option::None => current,
    }
}

impl TurnMachine {
    /// Phase-dependent facts every step keeps: once a resume was sent or a
    /// turn is underway, the machine knows a thread id.
    pub open spec fn inv(self) -> bool {
        &&& (self.phase == TurnPhase::AwaitInit ==> crate::meta::opt_view(self.effective_thread_id)
            == crate::meta::opt_view(self.initial_thread_id))
        &&& (self.phase == TurnPhase::AwaitResume ==> self.effective_thread_id is Some)
        &&& (self.phase == TurnPhase::AwaitStart ==> self.effective_thread_id is None)
        &&& (self.phase == TurnPhase::AwaitTurnStart ==> self.effective_thread_id is Some)
    }

    /// Handles one parsed notification (see the clauses below); called by
    /// [`TurnMachine::on_line`] for every line that carries a `method`.
    pub fn handle_notification(&mut self, msg: &Json, raw: &str, now: u64) -> (acts: Vec<
        TurnAction,
    >)
        requires
            old(self).phase != TurnPhase::Done,
            jv_get_str(msg.deep(), "method"@) is Some,
            old(self).inv(),
        ensures
            final(self).inv(),
            final(self).session_id@ == old(self).session_id@,
            final(self).effective_thread_id == old(self).effective_thread_id,
            final(self).initial_thread_id == old(self).initial_thread_id,
            final(self).turn_id == old(self).turn_id,
            final(self).pending_id == old(self).pending_id,
            final(self).next_id == old(self).next_id,
            capture_vw(final(self).capture) == spec_capture_step(
                capture_vw(old(self).capture),
                msg.deep(),
            ),
            match spec_persist_line(msg.deep(), now) {
                Some(l) => persists_line(acts@, l) && exists|i: int|
                    0 <= i < acts@.len() && ((#[trigger] acts@[i]) matches TurnAction::Broadcast(
                        e,
                        d,
                    ) && e@ == "codex_event"@ && d@ == json_text(
                        crate::events::spec_ui_event(
                            old(self).session_id@,
                            now,
                            "stdout"@,
                            raw@,
                            Some(msg.deep()),
                        ),
                    )),
                None => !persists_any(acts@),
            },
            persist_count(acts@) == (if spec_is_suppressed(msg.deep()) {
                0int
            } else {
                1int
            }),
            metrics_count(acts@) == (if spec_notification_emits(
                old(self).phase,
                old(self).meter,
                msg.deep(),
                now,
            ) {
                1int
            } else {
                0int
            }),
            usage_count(acts@) == (if old(self).phase == TurnPhase::Drain && jv_get_str(
                msg.deep(),
                "method"@,
            ) == Some("turn/completed"@) && final(self).last_snapshot is Some {
                1int
            } else {
                0int
            }),
            old(self).phase == TurnPhase::Drain ==> (crate::usage::spec_usage_snapshot(
                msg.deep(),
            ) matches Some(s) ==> ({
                &&& final(self).last_snapshot == Some(s)
                &&& exists|i: int|
                    0 <= i < acts@.len() && ((#[trigger] acts@[i])
                        matches TurnAction::PersistContext(sp) && sp == s)
                &&& (crate::usage::spec_should_emit(old(self).meter, s.pct_left, now)
                    ==> final(self).meter == (crate::usage::MeterState {
                    last_emit_ms: now,
                    last_pct: Some(s.pct_left),
                }) && exists|i: int|
                    0 <= i < acts@.len() && ((#[trigger] acts@[i]) matches TurnAction::Broadcast(
                        e,
                        d,
                    ) && e@ == "codex_metrics"@ && d@ == json_text(
                        crate::events::spec_context_metrics(
                            old(self).session_id@,
                            now,
                            s.pct_left,
                            s.total_tokens,
                            s.window,
                        ),
                    )))
                &&& (!crate::usage::spec_should_emit(old(self).meter, s.pct_left, now)
                    ==> final(self).meter == old(self).meter)
            })),
            !(old(self).phase == TurnPhase::Drain) || crate::usage::spec_usage_snapshot(
                msg.deep(),
            ) is None
                ==> final(self).meter == old(self).meter && final(self).last_snapshot
                == old(self).last_snapshot,
            (old(self).phase == TurnPhase::Drain && jv_get_str(msg.deep(), "method"@) == Some(
                "turn/completed"@,
            )) ==> ({
                let outcome = spec_turn_outcome(spec_completed_status(msg.deep()));
                &&& final(self).phase == TurnPhase::Done
                &&& final(self).success == outcome.0
                &&& final(self).exit_code == outcome.1
                &&& removes_handle(acts@)
                &&& has_run_finished(acts@, old(self).session_id@, now, outcome.1, outcome.0)
                &&& sets_status(
                    acts@,
                    if outcome.0 {
                        crate::meta::SessionStatus::Done
                    } else {
                        crate::meta::SessionStatus::Error
                    },
                )
                &&& (final(self).last_snapshot matches Some(s) ==> exists|i: int|
                    0 <= i < acts@.len() && ((#[trigger] acts@[i])
                        matches TurnAction::AppendUsage(r) && r.vw() == (crate::usage::UsageRecord {
                        ts_ms: now,
                        session_id: old(self).session_id,
                        thread_id: old(self).effective_thread_id,
                        total_tokens: s.total_tokens,
                        input_tokens: s.input_tokens,
                        output_tokens: s.output_tokens,
                        reasoning_output_tokens: s.reasoning_output_tokens,
                        cached_input_tokens: s.cached_input_tokens,
                        context_window: s.window,
                    }).vw()))
                &&& ({
                    let cleaned = crate::text::spec_strip_citations(
                        capture_vw(final(self).capture).1,
                    );
                    crate::text::spec_trim(cleaned).len() > 0 ==> exists|i: int|
                        0 <= i < acts@.len() && ((#[trigger] acts@[i])
                            matches TurnAction::WriteConclusion(t) && t@ == cleaned)
                })
            }),
            !(old(self).phase == TurnPhase::Drain && jv_get_str(msg.deep(), "method"@) == Some(
                "turn/completed"@,
            )) ==> final(self).phase == old(self).phase && final(self).success == old(self).success
                && final(self).exit_code == old(self).exit_code,
    {
        broadcast use {lemma_persist_count_push, lemma_metrics_count_push, lemma_usage_count_push};

        let mut acts: Vec<TurnAction> = Vec::new();
        let ghost mut pc_idx: int = -1;
        let ghost mut mc_idx: int = -1;
        if matches!(self.phase, TurnPhase::Drain) {
            match crate::usage::extract_token_usage_snapshot(msg) {
                Some(s) => {
                    self.last_snapshot = Some(s);
                    proof {
                        pc_idx = acts@.len() as int;
                    }
                    acts.push(TurnAction::PersistContext(s));
                    proof {
                        assert(acts@[pc_idx] matches TurnAction::PersistContext(sp) && sp == s);
                    }
                    let step = crate::usage::meter_step(self.meter, s.pct_left, now);
                    self.meter = step.0;
                    if step.1 {
                        let mline = crate::events::context_metrics_line(
                            self.session_id.as_str(),
                            now,
                            s.pct_left,
                            s.total_tokens,
                            s.window,
                        );
                        let ghost mi: int = acts@.len() as int;
                        acts.push(TurnAction::Broadcast("codex_metrics".to_owned(), mline));
                        proof {
                            mc_idx = mi;
                            assert(acts@[mi] matches TurnAction::Broadcast(e, d) && e@
                                == "codex_metrics"@);
                        }
                    }
                },
                None => {},
            }
        }
        let ghost persist_idx: int = acts@.len() as int;
        let persisted = persist_event_line(msg, now);
        match persisted {
            Some(l) => {
                acts.push(TurnAction::PersistLine(l));
                let payload = crate::events::ui_event_line(
                    self.session_id.as_str(),
                    now,
                    "stdout",
                    raw,
                    Some(msg),
                );
                acts.push(TurnAction::Broadcast("codex_event".to_owned(), payload));
                proof {
                    lemma_event_names();
                    assert(acts@[persist_idx] matches TurnAction::PersistLine(x));
                    assert(acts@[persist_idx + 1] matches TurnAction::Broadcast(e, d) && e@
                        == "codex_event"@);
                }
            },
            None => {},
        }
        capture_step(&mut self.capture, msg);
        let is_completed = crate::text::opt_string_is(msg.get_str("method"), "turn/completed");
        if matches!(self.phase, TurnPhase::Drain) && is_completed {
            let status: String = match msg.get("params") {
                Some(p) => match p.get("turn") {
                    Some(t) => match t.get_str("status") {
                        Some(s) => s.clone(),
                        None => String::new(),
                    },
                    None => String::new(),
                },
                None => String::new(),
            };
            let outcome = turn_outcome(status.as_str());
            self.success = outcome.0;
            self.exit_code = outcome.1;
            let ghost pre = acts@;
            let ghost snap = self.last_snapshot;
            let ghost cap = self.capture;
            let mut tail = self.finalize(now);
            let ghost tv = tail@;
            acts.append(&mut tail);
            proof {
                assert(acts@ == pre + tv);
                lemma_counts_concat(pre, tv);
                let i = choose|i: int| 0 <= i < tv.len() && (#[trigger] tv[i]) is RemoveHandle;
                assert(acts@[pre.len() + i] == tv[i]);
                let j = choose|j: int|
                    0 <= j < tv.len() && ((#[trigger] tv[j]) matches TurnAction::Broadcast(e, d)
                        && e@ == "codex_run_finished"@ && d@ == json_text(
                        crate::events::spec_run_finished(
                            old(self).session_id@,
                            now,
                            spec_turn_outcome(spec_completed_status(msg.deep())).1,
                            spec_turn_outcome(spec_completed_status(msg.deep())).0,
                        ),
                    ));
                assert(acts@[pre.len() + j] == tv[j]);
                let st = if spec_turn_outcome(spec_completed_status(msg.deep())).0 {
                    crate::meta::SessionStatus::Done
                } else {
                    crate::meta::SessionStatus::Error
                };
                let k = choose|k: int|
                    0 <= k < tv.len() && ((#[trigger] tv[k]) matches TurnAction::SetStatus(s) && s
                        == st);
                assert(acts@[pre.len() + k] == tv[k]);
                if snap is Some {
                    let s = snap->0;
                    let u = choose|u: int|
                        0 <= u < tv.len() && ((#[trigger] tv[u]) matches TurnAction::AppendUsage(r)
                            && r.vw() == (crate::usage::UsageRecord {
                            ts_ms: now,
                            session_id: old(self).session_id,
                            thread_id: old(self).effective_thread_id,
                            total_tokens: s.total_tokens,
                            input_tokens: s.input_tokens,
                            output_tokens: s.output_tokens,
                            reasoning_output_tokens: s.reasoning_output_tokens,
                            cached_input_tokens: s.cached_input_tokens,
                            context_window: s.window,
                        }).vw());
                    assert(acts@[pre.len() + u] == tv[u]);
                }
                let cleaned = crate::text::spec_strip_citations(capture_vw(cap).1);
                if crate::text::spec_trim(cleaned).len() > 0 {
                    let w = choose|w: int|
                        0 <= w < tv.len() && ((#[trigger] tv[w])
                            matches TurnAction::WriteConclusion(t) && t@ == cleaned);
                    assert(acts@[pre.len() + w] == tv[w]);
                }
                if persisted is Some {
                    assert(acts@[persist_idx] == pre[persist_idx]);
                    assert(acts@[persist_idx + 1] == pre[persist_idx + 1]);
                }
                if pc_idx >= 0 {
                    assert(acts@[pc_idx] == pre[pc_idx]);
                }
                if mc_idx >= 0 {
                    assert(acts@[mc_idx] == pre[mc_idx]);
                }
            }
        }
        proof {
            if pc_idx >= 0 {
                assert(acts@[pc_idx] matches TurnAction::PersistContext(sp));
            }
            if mc_idx >= 0 {
                assert(acts@[mc_idx] matches TurnAction::Broadcast(e, d) && e@
                    == "codex_metrics"@);
            }
        }
        acts
    }
}

} // verus!

verus! {

impl TurnMachine {
    /// Handles one parsed reply: correlates it with the pending request and
    /// advances the initialize / resume-or-start / turn sequence (see the
    /// clauses below); called by [`TurnMachine::on_line`] for every line
    /// without a `method`.
    pub fn handle_response(&mut self, msg: &Json, now: u64) -> (acts: Vec<TurnAction>)
        requires
            old(self).phase != TurnPhase::Done,
            old(self).phase != TurnPhase::Drain,
            jv_get_str(msg.deep(), "method"@) is None,
            old(self).inv(),
        ensures
            final(self).inv(),
            final(self).session_id@ == old(self).session_id@,
            final(self).initial_thread_id == old(self).initial_thread_id,
            final(self).capture == old(self).capture,
            final(self).meter == old(self).meter,
            final(self).last_snapshot == old(self).last_snapshot,
            persist_count(acts@) == 0,
            metrics_count(acts@) == 0,
            usage_count(acts@) == 0,
            !spec_id_matches(msg.deep(), old(self).pending_id) ==> *final(self) == *old(self)
                && acts@.len() == 0,
            (spec_id_matches(msg.deep(), old(self).pending_id) && !spec_reply_ok(msg.deep()) && (
            old(self).phase == TurnPhase::AwaitInit || old(self).phase == TurnPhase::AwaitStart
                || old(self).phase == TurnPhase::AwaitTurnStart)) ==> final(self).phase
                == TurnPhase::Done && !final(self).success && final(self).exit_code == Some(1i32)
                && removes_handle(acts@) && has_run_finished(
                acts@,
                old(self).session_id@,
                now,
                Some(1i32),
                false,
            ),
            (spec_id_matches(msg.deep(), old(self).pending_id) && !spec_reply_ok(msg.deep()) && old(self).phase == TurnPhase::AwaitResume) ==> final(self).phase == TurnPhase::AwaitStart
                && final(self).effective_thread_id is None && final(self).pending_id == old(self).next_id && acts@.len() == 1 && (acts@[0] matches TurnAction::SendLine(l) && l@
                == json_text(
                spec_request(
                    old(self).next_id,
                    "thread/start"@,
                    spec_start_params(crate::meta::opt_view(old(self).cwd)),
                ),
            )),
            (spec_id_matches(msg.deep(), old(self).pending_id) && spec_reply_ok(msg.deep()) && old(self).phase == TurnPhase::AwaitInit) ==> ({
                &&& (old(self).initial_thread_id is Some ==> final(self).phase
                    == TurnPhase::AwaitResume && final(self).pending_id == old(self).next_id
                    && acts@.len() == 1 && (acts@[0] matches TurnAction::SendLine(l) && l@
                    == json_text(
                    spec_request(
                        old(self).next_id,
                        "thread/resume"@,
                        spec_resume_params(
                            old(self).initial_thread_id->0@,
                            crate::meta::opt_view(old(self).cwd),
                        ),
                    ),
                )))
                &&& (old(self).initial_thread_id is None ==> final(self).phase
                    == TurnPhase::AwaitStart && final(self).pending_id == old(self).next_id
                    && acts@.len() == 1 && (acts@[0] matches TurnAction::SendLine(l) && l@
                    == json_text(
                    spec_request(
                        old(self).next_id,
                        "thread/start"@,
                        spec_start_params(crate::meta::opt_view(old(self).cwd)),
                    ),
                )))
            }),
            (spec_id_matches(msg.deep(), old(self).pending_id) && spec_reply_ok(msg.deep()) && old(self).phase == TurnPhase::AwaitResume) ==> ({
                let tid = spec_resolved_tid(
                    msg.deep(),
                    crate::meta::opt_view(old(self).effective_thread_id),
                );
                &&& tid is Some
                &&& final(self).phase == TurnPhase::AwaitTurnStart
                &&& crate::meta::opt_view(final(self).effective_thread_id) == tid
                &&& final(self).pending_id == old(self).next_id
                &&& (tid != crate::meta::opt_view(old(self).initial_thread_id) ==> exists|i: int|
                    0 <= i < acts@.len() && ((#[trigger] acts@[i])
                        matches TurnAction::SetThreadId(x) && Some(x@) == tid))
                &&& (acts@.last() matches TurnAction::SendLine(l) && l@ == json_text(
                    spec_request(
                        old(self).next_id,
                        "turn/start"@,
                        spec_turn_params(tid->0, old(self).prompt@),
                    ),
                ))
            }),
            (spec_id_matches(msg.deep(), old(self).pending_id) && spec_reply_ok(msg.deep()) && old(self).phase == TurnPhase::AwaitStart) ==> ({
                let got = spec_thread_id_of(jv_get(msg.deep(), "result"@)->0);
                &&& (got matches Some(t) ==> final(self).phase == TurnPhase::AwaitTurnStart
                    && crate::meta::opt_view(final(self).effective_thread_id) == Some(t) && final(self).pending_id == old(self).next_id && (Some(t) != crate::meta::opt_view(
                    old(self).initial_thread_id,
                ) ==> exists|i: int|
                    0 <= i < acts@.len() && ((#[trigger] acts@[i])
                        matches TurnAction::SetThreadId(x) && x@ == t)) && (acts@.last()
                    matches TurnAction::SendLine(l) && l@ == json_text(
                    spec_request(
                        old(self).next_id,
                        "turn/start"@,
                        spec_turn_params(t, old(self).prompt@),
                    ),
                )))
                &&& (got is None ==> final(self).phase == TurnPhase::Done && !final(self).success
                    && final(self).exit_code == Some(1i32) && removes_handle(acts@)
                    && has_run_finished(acts@, old(self).session_id@, now, Some(1i32), false))
            }),
            (spec_id_matches(msg.deep(), old(self).pending_id) && spec_reply_ok(msg.deep()) && old(self).phase == TurnPhase::AwaitTurnStart) ==> final(self).phase == TurnPhase::Drain
                && crate::meta::opt_view(final(self).turn_id) == spec_turn_id_of(
                jv_get(msg.deep(), "result"@)->0,
            ) && final(self).effective_thread_id == old(self).effective_thread_id && acts@.len()
                == 0,
    {
        broadcast use {lemma_persist_count_push, lemma_metrics_count_push, lemma_usage_count_push};

        if !jsonrpc_id_matches(msg, self.pending_id) {
            return Vec::new();
        }
        let err = msg.get("error");
        let ok = err.is_none() && msg.get("result").is_some();
        if !ok {
            let detail: String = match err {
                Some(e) => json_to_string(e),
                None => "missing result".to_owned(),
            };
            if matches!(self.phase, TurnPhase::AwaitInit) {
                return self.fail(
                    "Initialize failed: ".to_owned().concat(detail.as_str()),
                    Some(1i32),
                    now,
                );
            }
            if matches!(self.phase, TurnPhase::AwaitResume) {
                self.effective_thread_id = None;
                let params = start_params_json(&self.cwd);
                let line = jsonrpc_request_line(self.next_id, "thread/start", params);
                self.pending_id = self.next_id;
                if self.next_id < i64::MAX {
                    self.next_id = self.next_id + 1;
                }
                self.phase = TurnPhase::AwaitStart;
                let mut acts: Vec<TurnAction> = Vec::new();
                acts.push(TurnAction::SendLine(line));
                return acts;
            }
            if matches!(self.phase, TurnPhase::AwaitStart) {
                return self.fail(
                    "Thread start failed: ".to_owned().concat(detail.as_str()),
                    Some(1i32),
                    now,
                );
            }
            return self.fail(
                "Turn start failed: ".to_owned().concat(detail.as_str()),
                Some(1i32),
                now,
            );
        }
        let result = match msg.get("result") {
            Some(r) => r,
            None => {
                return Vec::new();
            },
        };
        if matches!(self.phase, TurnPhase::AwaitInit) {
            let mut acts: Vec<TurnAction> = Vec::new();
            match &self.initial_thread_id {
                Some(tid) => {
                    let params = resume_params_json(tid.as_str(), &self.cwd);
                    let line = jsonrpc_request_line(self.next_id, "thread/resume", params);
                    acts.push(TurnAction::SendLine(line));
                    self.phase = TurnPhase::AwaitResume;
                },
                None => {
                    let params = start_params_json(&self.cwd);
                    let line = jsonrpc_request_line(self.next_id, "thread/start", params);
                    acts.push(TurnAction::SendLine(line));
                    self.phase = TurnPhase::AwaitStart;
                },
            }
            self.pending_id = self.next_id;
            if self.next_id < i64::MAX {
                self.next_id = self.next_id + 1;
            }
            return acts;
        }
        if matches!(self.phase, TurnPhase::AwaitResume) || matches!(
            self.phase,
            TurnPhase::AwaitStart,
        ) {
            let was_resume = matches!(self.phase, TurnPhase::AwaitResume);
            match thread_id_of(result) {
                Some(t) => {
                    self.effective_thread_id = Some(t);
                },
                None => {},
            }
            let tid: String = match &self.effective_thread_id {
                Some(t) => t.clone(),
                None => {
                    proof {
                        assert(!was_resume);
                    }
                    return self.fail(
                        "Thread start did not return a thread id".to_owned(),
                        Some(1i32),
                        now,
                    );
                },
            };
            let mut acts: Vec<TurnAction> = Vec::new();
            let differs: bool = match &self.initial_thread_id {
                Some(old_tid) => !crate::text::str_eq(old_tid.as_str(), tid.as_str()),
                None => true,
            };
            if differs {
                acts.push(TurnAction::SetThreadId(tid.clone()));
            }
            let params = turn_params_json(tid.as_str(), self.prompt.as_str());
            let line = jsonrpc_request_line(self.next_id, "turn/start", params);
            let ghost si: int = acts@.len() as int;
            acts.push(TurnAction::SendLine(line));
            self.pending_id = self.next_id;
            if self.next_id < i64::MAX {
                self.next_id = self.next_id + 1;
            }
            self.phase = TurnPhase::AwaitTurnStart;
            proof {
                assert(acts@.last() == acts@[si]);
                if differs && si == 1 {
                    assert(acts@[0] matches TurnAction::SetThreadId(x));
                }
            }
            return acts;
        }
        self.turn_id = turn_id_of(result);
        self.phase = TurnPhase::Drain;
        Vec::new()
    }
}

} // verus!

verus! {

impl TurnMachine {
    /// Feeds one stdout line of the child to the machine. A line that does
    /// not parse ends the turn as a failure. A parsed notification is
    /// persisted and broadcast unless suppressed, advances the agent-text
    /// capture, feeds the usage meter during the drain, and a
    /// `turn/completed` ends the drain under the fixed outcome table. A
    /// parsed reply advances the request sequence
    /// (see [`TurnMachine::handle_notification`] and the response clauses
    /// below for the exact guarantees).
    pub fn on_line(&mut self, raw: &str, now: u64) -> (acts: Vec<TurnAction>)
        requires
            old(self).phase != TurnPhase::Done,
            old(self).inv(),
        ensures
            final(self).inv(),
            final(self).session_id@ == old(self).session_id@,
            persist_count(acts@) == (if spec_line_persists(raw@) {
                1int
            } else {
                0int
            }),
            metrics_count(acts@) == (if spec_line_emits(
                old(self).phase,
                old(self).meter,
                raw@,
                now,
            ) {
                1int
            } else {
                0int
            }),
            crate::json::json_of(raw@) is None ==> usage_count(acts@) == (if old(self).phase
                == TurnPhase::Drain && old(self).last_snapshot is Some {
                1int
            } else {
                0int
            }),
            crate::json::json_of(raw@) matches Some(v) ==> usage_count(acts@) == (if old(
                self,
            ).phase == TurnPhase::Drain && jv_get_str(v, "method"@) == Some("turn/completed"@)
                && final(self).last_snapshot is Some {
                1int
            } else {
                0int
            }),
            crate::json::json_of(raw@) is None ==> final(self).phase == TurnPhase::Done
                && !final(self).success && removes_handle(acts@) && has_run_finished(
                acts@,
                old(self).session_id@,
                now,
                Some(1i32),
                false,
            ),
            crate::json::json_of(raw@) matches Some(v) ==> (jv_get_str(v, "method"@) is Some
                ==> ({
                &&& capture_vw(final(self).capture) == spec_capture_step(
                    capture_vw(old(self).capture),
                    v,
                )
                &&& match spec_persist_line(v, now) {
                    Some(l) => persists_line(acts@, l),
                    None => !persists_any(acts@),
                }
                &&& ((old(self).phase == TurnPhase::Drain && jv_get_str(v, "method"@) == Some(
                    "turn/completed"@,
                )) ==> ({
                    let outcome = spec_turn_outcome(spec_completed_status(v));
                    &&& final(self).phase == TurnPhase::Done
                    &&& final(self).success == outcome.0
                    &&& final(self).exit_code == outcome.1
                    &&& has_run_finished(acts@, old(self).session_id@, now, outcome.1, outcome.0)
                    &&& sets_status(
                        acts@,
                        if outcome.0 {
                            crate::meta::SessionStatus::Done
                        } else {
                            crate::meta::SessionStatus::Error
                        },
                    )
                    &&& (final(self).last_snapshot matches Some(s) ==> exists|i: int|
                        0 <= i < acts@.len() && ((#[trigger] acts@[i])
                            matches TurnAction::AppendUsage(r) && r.vw() == (
                        crate::usage::UsageRecord {
                            ts_ms: now,
                            session_id: old(self).session_id,
                            thread_id: old(self).effective_thread_id,
                            total_tokens: s.total_tokens,
                            input_tokens: s.input_tokens,
                            output_tokens: s.output_tokens,
                            reasoning_output_tokens: s.reasoning_output_tokens,
                            cached_input_tokens: s.cached_input_tokens,
                            context_window: s.window,
                        }).vw()))
                    &&& ({
                        let cleaned = crate::text::spec_strip_citations(
                            capture_vw(final(self).capture).1,
                        );
                        crate::text::spec_trim(cleaned).len() > 0 ==> exists|i: int|
                            0 <= i < acts@.len() && ((#[trigger] acts@[i])
                                matches TurnAction::WriteConclusion(t) && t@ == cleaned)
                    })
                }))
                &&& (old(self).phase == TurnPhase::Drain ==> (
                crate::usage::spec_usage_snapshot(v) matches Some(s) ==> final(self).last_snapshot
                    == Some(s)))
            })),
            crate::json::json_of(raw@) matches Some(v) ==> ((jv_get_str(v, "method"@) is None
                && old(self).phase != TurnPhase::Drain && !spec_id_matches(
                v,
                old(self).pending_id,
            )) ==> *final(self) == *old(self) && acts@.len() == 0),
    {
        let parsed = crate::json::parse_json(raw);
        match parsed {
            None => {
                if matches!(self.phase, TurnPhase::Drain) {
                    self.success = false;
                    self.exit_code = Some(1i32);
                    self.finalize(now)
                } else {
                    self.fail(
                        "codex app-server sent a line that is not JSON".to_owned(),
                        Some(1i32),
                        now,
                    )
                }
            },
            Some(msg) => {
                if msg.get_str("method").is_some() {
                    self.handle_notification(&msg, raw, now)
                } else if matches!(self.phase, TurnPhase::Drain) {
                    Vec::new()
                } else {
                    self.handle_response(&msg, now)
                }
            },
        }
    }
}

/// The event-log record of a failure to launch the agent at all.
pub open spec fn spec_app_error_event(message: Seq<char>, ts: u64) -> JsonView {
    JsonView::Obj(
        seq![
            ("type"@, JsonView::Str("app/error"@)),
            ("message"@, JsonView::Str(message)),
            ("_ts_ms"@, JsonView::UInt(ts)),
        ],
    )
}

/// The actions taken when the agent executable cannot be spawned at all:
/// an `app/error` line goes to the event log, the error is written out,
/// the session is marked failed, the handle detached, and
/// `codex_run_finished{success:false, exit_code:1}` is broadcast, as the
/// error table prescribes for a spawn failure.
pub fn spawn_failure_actions(session_id: &str, error: &str, now: u64) -> (acts: Vec<TurnAction>)
    ensures
        acts@.len() == 5,
        acts@[0] matches TurnAction::PersistLine(l) && l@ == json_text(
            spec_app_error_event(error@, now),
        ),
        acts@[1] matches TurnAction::WriteErrorFiles(e) && e@ == error@,
        acts@[2] matches TurnAction::SetStatus(s) && s == crate::meta::SessionStatus::Error,
        acts@[3] is RemoveHandle,
        has_run_finished(acts@, session_id@, now, Some(1i32), false),
{
    let mut b = ObjBuilder::new();
    b.field("type", Json::Str("app/error".to_owned()));
    b.field("message", Json::Str(error.to_owned()));
    b.field("_ts_ms", Json::UInt(now));
    proof {
        assert(b.view() =~= spec_app_error_event(error@, now)->Obj_0);
    }
    let record = b.finish();
    let mut acts: Vec<TurnAction> = Vec::new();
    acts.push(TurnAction::PersistLine(json_to_string(&record)));
    acts.push(TurnAction::WriteErrorFiles(error.to_owned()));
    acts.push(TurnAction::SetStatus(crate::meta::SessionStatus::Error));
    acts.push(TurnAction::RemoveHandle);
    let payload = crate::events::run_finished_line(session_id, now, Some(1i32), false);
    let ghost bi: int = acts@.len() as int;
    acts.push(TurnAction::Broadcast("codex_run_finished".to_owned(), payload));
    proof {
        assert(acts@[bi] matches TurnAction::Broadcast(e, d) && e@ == "codex_run_finished"@);
    }
    acts
}

} // verus!
