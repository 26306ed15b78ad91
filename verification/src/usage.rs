//! The usage meter: context-window snapshots derived from
//! `thread/tokenUsage/updated` notifications, the emission throttle for
//! `codex_metrics` events, and the usage-ledger records.

use vstd::prelude::*;
use crate::json::{Json, JsonView, jv_get, jv_get_str, jv_u64_lenient};

verus! {

/// One observation of token usage against a context window.
#[derive(Clone, Copy, PartialEq, Eq, Structural, Debug)]
pub struct TokenUsageSnapshot {
    pub window: u64,
    pub total_tokens: u64,
    pub input_tokens: u64,
    pub output_tokens: u64,
    pub reasoning_output_tokens: u64,
    pub cached_input_tokens: u64,
    pub pct_left: u8,
}

/// The percentage of the context window still free:
/// `(max(0, window - total) * 100 + window/2) / window`, rounded to nearest
/// and clamped to 100. Meaningful only for `window > 0`.
pub open spec fn spec_pct_left(window: u64, total: u64) -> int {
    let remaining: int = if window >= total {
        window - total
    } else {
        0
    };
    let pct = (remaining * 100 + window / 2) / (window as int);
    if pct > 100 {
        100
    } else {
        pct
    }
}

/// Computes [`spec_pct_left`].
pub fn pct_left(window: u64, total: u64) -> (r: u8)
    requires
        window > 0,
    ensures
        r == spec_pct_left(window, total),
        r <= 100,
{
    let rem: u64 = if window >= total {
        window - total
    } else {
        0
    };
    let num: u128 = (rem as u128) * 100 + (window as u128) / 2;
    let p: u128 = num / (window as u128);
    if p > 100 {
        100u8
    } else {
        p as u8
    }
}

/// The `u64` field `key` of object `v`, read leniently.
pub open spec fn jv_field_u64(v: JsonView, key: Seq<char>) -> Option<u64> {
    match jv_get(v, key) {
        Option::Some(x) => jv_u64_lenient(x),
        Option::None => None,
    }
}

/// The first present value.
pub open spec fn opt_u64_or(a: Option<u64>, b: Option<u64>) -> Option<u64> {
    if a is Some {
        a
    } else {
        b
    }
}

/// A missing value read as zero.
pub open spec fn or_zero(o: Option<u64>) -> u64 {
    match o {
        Option::Some(x) => x,
        Option::None => 0,
    }
}

/// The snapshot carried by a `thread/tokenUsage/updated` notification:
/// the window comes from `params.modelContextWindow` or
/// `params.tokenUsage.modelContextWindow` (zero or absent means no
/// snapshot); the counters come from `tokenUsage.last`, or `tokenUsage.total`
/// when `last` is absent; a missing `totalTokens` is replaced by
/// input + output + reasoning when that sum is positive (capped at `u64`).
pub open spec fn spec_usage_snapshot(v: JsonView) -> Option<TokenUsageSnapshot> {
    if jv_get_str(v, "method"@) != Some("thread/tokenUsage/updated"@) {
        None
    } else {
        match jv_get(v, "params"@) {
            Option::None => None,
            Option::Some(params) => match jv_get(params, "tokenUsage"@) {
                Option::None => None,
                Option::Some(usage) => {
                    let window = or_zero(
                        opt_u64_or(
                            jv_field_u64(params, "modelContextWindow"@),
                            jv_field_u64(usage, "modelContextWindow"@),
                        ),
                    );
                    if window == 0 {
                        None
                    } else {
                        match (jv_get(usage, "last"@), jv_get(usage, "total"@)) {
                            (Option::None, Option::None) => None,
                            (last_opt, total_opt) => {
                                let lastv = if last_opt is Some {
                                    last_opt->0
                                } else {
                                    total_opt->0
                                };
                                let input = or_zero(jv_field_u64(lastv, "inputTokens"@));
                                let cached = or_zero(jv_field_u64(lastv, "cachedInputTokens"@));
                                let output = or_zero(jv_field_u64(lastv, "outputTokens"@));
                                let reasoning = or_zero(
                                    jv_field_u64(lastv, "reasoningOutputTokens"@),
                                );
                                let total: u64 = match jv_field_u64(lastv, "totalTokens"@) {
                                    Option::Some(t) => t,
                                    Option::None => {
                                        let sum: int = input + output + reasoning;
                                        if sum > 0 {
                                            if sum <= u64::MAX {
                                                sum as u64
                                            } else {
                                                u64::MAX
                                            }
                                        } else {
                                            0
                                        }
                                    },
                                };
                                Some(
                                    TokenUsageSnapshot {
                                        window,
                                        total_tokens: total,
                                        input_tokens: input,
                                        output_tokens: output,
                                        reasoning_output_tokens: reasoning,
                                        cached_input_tokens: cached,
                                        pct_left: spec_pct_left(window, total) as u8,
                                    },
                                )
                            },
                        }
                    }
                },
            },
        }
    }
}

fn field_u64(v: &Json, key: &str) -> (r: Option<u64>)
    ensures
        r == jv_field_u64(v.deep(), key@),
{
    match v.get(key) {
        Some(x) => x.as_u64_lenient(),
        None => None,
    }
}

/// Reads the usage snapshot out of a notification
/// (see [`spec_usage_snapshot`]).
pub fn extract_token_usage_snapshot(msg: &Json) -> (r: Option<TokenUsageSnapshot>)
    ensures
        r == spec_usage_snapshot(msg.deep()),
{
    if !crate::text::opt_string_is(msg.get_str("method"), "thread/tokenUsage/updated") {
        return None;
    }
    let params = match msg.get("params") {
        Some(p) => p,
        None => {
            return None;
        },
    };
    let usage = match params.get("tokenUsage") {
        Some(u) => u,
        None => {
            return None;
        },
    };
    let window: u64 = match field_u64(params, "modelContextWindow") {
        Some(w) => w,
        None => match field_u64(usage, "modelContextWindow") {
            Some(w) => w,
            None => 0,
        },
    };
    if window == 0 {
        return None;
    }
    let lastv = match usage.get("last") {
        Some(l) => l,
        None => match usage.get("total") {
            Some(t) => t,
            None => {
                return None;
            },
        },
    };
    let input = match field_u64(lastv, "inputTokens") {
        Some(x) => x,
        None => 0,
    };
    let cached = match field_u64(lastv, "cachedInputTokens") {
        Some(x) => x,
        None => 0,
    };
    let output = match field_u64(lastv, "outputTokens") {
        Some(x) => x,
        None => 0,
    };
    let reasoning = match field_u64(lastv, "reasoningOutputTokens") {
        Some(x) => x,
        None => 0,
    };
    let total: u64 = match field_u64(lastv, "totalTokens") {
        Some(t) => t,
        None => {
            let sum: u128 = (input as u128) + (output as u128) + (reasoning as u128);
            if sum > 0 {
                if sum <= u64::MAX as u128 {
                    sum as u64
                } else {
                    u64::MAX
                }
            } else {
                0
            }
        },
    };
    Some(
        TokenUsageSnapshot {
            window,
            total_tokens: total,
            input_tokens: input,
            output_tokens: output,
            reasoning_output_tokens: reasoning,
            cached_input_tokens: cached,
            pct_left: pct_left(window, total),
        },
    )
}

/// What the metrics throttle remembers: when it last emitted (zero meaning
/// never) and the percent-left value it emitted then.
#[derive(Clone, Copy, PartialEq, Eq, Structural, Debug)]
pub struct MeterState {
    pub last_emit_ms: u64,
    pub last_pct: Option<u8>,
}

impl MeterState {
    /// The throttle before any emission.
    pub fn new() -> (r: MeterState)
        ensures
            r.last_emit_ms == 0 && r.last_pct is None,
    {
        MeterState { last_emit_ms: 0, last_pct: None }
    }
}

/// Whether a `codex_metrics` event is emitted now: only when the
/// percent-left differs from the last emitted value, and at least five
/// seconds have passed since the last emission (or none has happened).
pub open spec fn spec_should_emit(st: MeterState, pct: u8, now: u64) -> bool {
    st.last_pct != Some(pct) && (st.last_emit_ms == 0 || now >= st.last_emit_ms + 5000)
}

/// Advances the metrics throttle on one snapshot; returns whether to emit a
/// `codex_metrics` event now.
pub fn meter_step(st: MeterState, pct: u8, now: u64) -> (r: (MeterState, bool))
    ensures
        r.1 == spec_should_emit(st, pct, now),
        r.1 ==> r.0 == (MeterState { last_emit_ms: now, last_pct: Some(pct) }),
        !r.1 ==> r.0 == st,
{
    if (match st.last_pct {
        Some(p) => p != pct,
        None => true,
    }) && (st.last_emit_ms == 0 || now >= st.last_emit_ms && now - st.last_emit_ms >= 5000) {
        (MeterState { last_emit_ms: now, last_pct: Some(pct) }, true)
    } else {
        (st, false)
    }
}

/// Metrics throttling law: when an event passes the throttle, its
/// percent-left differs from the previously emitted one, and — unless this
/// is the first emission — at least five seconds have passed since it; the
/// new state records this emission, so consecutive emissions of one session
/// are pairwise so related, and their timestamps never decrease.
pub proof fn lemma_metrics_gating(st: MeterState, pct: u8, now: u64)
    requires
        spec_should_emit(st, pct, now),
    ensures
        st.last_pct matches Some(p) ==> p != pct,
        st.last_emit_ms > 0 ==> now >= st.last_emit_ms + 5000,
        st.last_emit_ms > 0 ==> now > st.last_emit_ms,
{
}

} // verus!

verus! {

/// One line of the shared usage ledger.
pub struct UsageRecord {
    pub ts_ms: u64,
    pub session_id: String,
    pub thread_id: Option<String>,
    pub total_tokens: u64,
    pub input_tokens: u64,
    pub output_tokens: u64,
    pub reasoning_output_tokens: u64,
    pub cached_input_tokens: u64,
    pub context_window: u64,
}

/// The ghost view of a [`UsageRecord`].
pub struct UsageRecordView {
    pub ts_ms: u64,
    pub session_id: Seq<char>,
    pub thread_id: Option<Seq<char>>,
    pub total_tokens: u64,
    pub input_tokens: u64,
    pub output_tokens: u64,
    pub reasoning_output_tokens: u64,
    pub cached_input_tokens: u64,
    pub context_window: u64,
}

impl UsageRecord {
    /// The deep view of this record.
    pub open spec fn vw(self) -> UsageRecordView {
        UsageRecordView {
            ts_ms: self.ts_ms,
            session_id: self.session_id@,
            thread_id: match self.thread_id {
                Option::Some(t) => Some(t@),
                Option::None => None,
            },
            total_tokens: self.total_tokens,
            input_tokens: self.input_tokens,
            output_tokens: self.output_tokens,
            reasoning_output_tokens: self.reasoning_output_tokens,
            cached_input_tokens: self.cached_input_tokens,
            context_window: self.context_window,
        }
    }

    /// The record written at finalize time from the last observed snapshot.
    pub fn from_snapshot(
        ts_ms: u64,
        session_id: String,
        thread_id: Option<String>,
        s: TokenUsageSnapshot,
    ) -> (r: UsageRecord)
        ensures
            r.ts_ms == ts_ms,
            r.session_id@ == session_id@,
            r.vw().thread_id == (match thread_id {
                Some(t) => Some(t@),
                None => None::<Seq<char>>,
            }),
            r.total_tokens == s.total_tokens,
            r.input_tokens == s.input_tokens,
            r.output_tokens == s.output_tokens,
            r.reasoning_output_tokens == s.reasoning_output_tokens,
            r.cached_input_tokens == s.cached_input_tokens,
            r.context_window == s.window,
    {
        UsageRecord {
            ts_ms,
            session_id,
            thread_id,
            total_tokens: s.total_tokens,
            input_tokens: s.input_tokens,
            output_tokens: s.output_tokens,
            reasoning_output_tokens: s.reasoning_output_tokens,
            cached_input_tokens: s.cached_input_tokens,
            context_window: s.window,
        }
    }
}

/// The JSON object a [`UsageRecord`] serializes to.
pub open spec fn spec_usage_record_json(r: UsageRecordView) -> JsonView {
    JsonView::Obj(
        seq![
            ("ts_ms"@, JsonView::UInt(r.ts_ms)),
            ("session_id"@, JsonView::Str(r.session_id)),
            (
                "thread_id"@,
                match r.thread_id {
                    Option::Some(t) => JsonView::Str(t),
                    Option::None => JsonView::Null,
                },
            ),
            ("total_tokens"@, JsonView::UInt(r.total_tokens)),
            ("input_tokens"@, JsonView::UInt(r.input_tokens)),
            ("output_tokens"@, JsonView::UInt(r.output_tokens)),
            ("reasoning_output_tokens"@, JsonView::UInt(r.reasoning_output_tokens)),
            ("cached_input_tokens"@, JsonView::UInt(r.cached_input_tokens)),
            ("context_window"@, JsonView::UInt(r.context_window)),
        ],
    )
}

/// Serializes a usage record to its ledger line
/// (see [`spec_usage_record_json`]).
pub fn usage_record_line(r: &UsageRecord) -> (out: String)
    ensures
        out@ == crate::json::json_text(spec_usage_record_json(r.vw())),
{
    let mut b = crate::json::ObjBuilder::new();
    b.field("ts_ms", Json::UInt(r.ts_ms));
    b.field("session_id", Json::Str(r.session_id.clone()));
    b.field(
        "thread_id",
        match &r.thread_id {
            Some(t) => Json::Str(t.clone()),
            None => Json::Null,
        },
    );
    b.field("total_tokens", Json::UInt(r.total_tokens));
    b.field("input_tokens", Json::UInt(r.input_tokens));
    b.field("output_tokens", Json::UInt(r.output_tokens));
    b.field("reasoning_output_tokens", Json::UInt(r.reasoning_output_tokens));
    b.field("cached_input_tokens", Json::UInt(r.cached_input_tokens));
    b.field("context_window", Json::UInt(r.context_window));
    proof {
        assert(b.view() =~= spec_usage_record_json(r.vw())->Obj_0);
    }
    let j = b.finish();
    crate::json::json_to_string(&j)
}

/// The record a parsed ledger line denotes: every counter must be an
/// unsigned number, the session id a string, and the thread id may be
/// absent, null, or a string.
pub open spec fn spec_usage_record_of_json(v: JsonView) -> Option<UsageRecordView> {
    let ts = crate::meta::jv_req_u64(v, "ts_ms"@);
    let sid = jv_get_str(v, "session_id"@);
    let tid = crate::meta::jv_opt_str(v, "thread_id"@);
    let total = crate::meta::jv_req_u64(v, "total_tokens"@);
    let input = crate::meta::jv_req_u64(v, "input_tokens"@);
    let output = crate::meta::jv_req_u64(v, "output_tokens"@);
    let reasoning = crate::meta::jv_req_u64(v, "reasoning_output_tokens"@);
    let cached = crate::meta::jv_req_u64(v, "cached_input_tokens"@);
    let window = crate::meta::jv_req_u64(v, "context_window"@);
    if ts is Some && sid is Some && tid is Some && total is Some && input is Some && output is Some
        && reasoning is Some && cached is Some && window is Some {
        Some(
            UsageRecordView {
                ts_ms: ts->0,
                session_id: sid->0,
                thread_id: tid->0,
                total_tokens: total->0,
                input_tokens: input->0,
                output_tokens: output->0,
                reasoning_output_tokens: reasoning->0,
                cached_input_tokens: cached->0,
                context_window: window->0,
            },
        )
    } else {
        None
    }
}

fn req_u64_of(v: &Json, key: &str) -> (r: Option<u64>)
    ensures
        r == crate::meta::jv_req_u64(v.deep(), key@),
{
    match v.get(key) {
        Some(Json::UInt(u)) => Some(*u),
        _ => None,
    }
}

/// Reads a ledger line back into a record
/// (see [`spec_usage_record_of_json`]).
pub fn usage_record_from_json(v: &Json) -> (r: Option<UsageRecord>)
    ensures
        match r {
            Some(rec) => spec_usage_record_of_json(v.deep()) == Some(rec.vw()),
            None => spec_usage_record_of_json(v.deep()) is None,
        },
{
    let ts = req_u64_of(v, "ts_ms");
    let sid: Option<String> = match v.get_str("session_id") {
        Some(s) => Some(s.clone()),
        None => None,
    };
    let tid: Option<Option<String>> = match v.get("thread_id") {
        None => Some(None),
        Some(Json::Null) => Some(None),
        Some(Json::Str(s)) => Some(Some(s.clone())),
        Some(_) => None,
    };
    let total = req_u64_of(v, "total_tokens");
    let input = req_u64_of(v, "input_tokens");
    let output = req_u64_of(v, "output_tokens");
    let reasoning = req_u64_of(v, "reasoning_output_tokens");
    let cached = req_u64_of(v, "cached_input_tokens");
    let window = req_u64_of(v, "context_window");
    match (ts, sid, tid, total, input, output, reasoning, cached, window) {
        (
            Some(ts),
            Some(sid),
            Some(tid),
            Some(total),
            Some(input),
            Some(output),
            Some(reasoning),
            Some(cached),
            Some(window),
        ) => Some(
            UsageRecord {
                ts_ms: ts,
                session_id: sid,
                thread_id: tid,
                total_tokens: total,
                input_tokens: input,
                output_tokens: output,
                reasoning_output_tokens: reasoning,
                cached_input_tokens: cached,
                context_window: window,
            },
        ),
        _ => None,
    }
}

} // verus!
