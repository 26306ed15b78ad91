//! Session metadata: the on-disk `meta.json` shape, its update rules, and
//! the merge of local and native listings.

use vstd::prelude::*;
use crate::json::{Json, JsonView, ObjBuilder, jv_get, jv_get_str, json_text, json_to_string};

verus! {

broadcast use {vstd::seq_lib::group_to_multiset_ensures, vstd::multiset::group_multiset_axioms};

/// The lifecycle state of a session.
#[derive(Clone, Copy, PartialEq, Eq, Structural, Debug)]
pub enum SessionStatus {
    Running,
    Done,
    Error,
}

/// The wire name of a status value.
pub open spec fn spec_status_str(s: SessionStatus) -> Seq<char> {
    match s {
        SessionStatus::Running => "running"@,
        SessionStatus::Done => "done"@,
        SessionStatus::Error => "error"@,
    }
}

/// One session's metadata, as `meta.json` holds it.
pub struct SessionMeta {
    pub id: String,
    pub title: String,
    pub created_at_ms: u64,
    pub last_used_at_ms: u64,
    pub cwd: Option<String>,
    pub status: SessionStatus,
    pub codex_session_id: Option<String>,
    pub context_window: Option<u64>,
    pub context_used_tokens: Option<u64>,
    pub context_left_pct: Option<u8>,
    pub events_path: String,
    pub stderr_path: String,
    pub conclusion_path: String,
}

/// The ghost view of a [`SessionMeta`].
pub struct SessionMetaView {
    pub id: Seq<char>,
    pub title: Seq<char>,
    pub created_at_ms: u64,
    pub last_used_at_ms: u64,
    pub cwd: Option<Seq<char>>,
    pub status: SessionStatus,
    pub codex_session_id: Option<Seq<char>>,
    pub context_window: Option<u64>,
    pub context_used_tokens: Option<u64>,
    pub context_left_pct: Option<u8>,
    pub events_path: Seq<char>,
    pub stderr_path: Seq<char>,
    pub conclusion_path: Seq<char>,
}

/// The view of an optional owned string.
pub open spec fn opt_view(o: Option<String>) -> Option<Seq<char>> {
    match o {
        Option::Some(s) => Some(s@),
        Option::None => None,
    }
}

impl SessionMeta {
    /// The deep view of this metadata.
    pub open spec fn vw(self) -> SessionMetaView {
        SessionMetaView {
            id: self.id@,
            title: self.title@,
            created_at_ms: self.created_at_ms,
            last_used_at_ms: self.last_used_at_ms,
            cwd: opt_view(self.cwd),
            status: self.status,
            codex_session_id: opt_view(self.codex_session_id),
            context_window: self.context_window,
            context_used_tokens: self.context_used_tokens,
            context_left_pct: self.context_left_pct,
            events_path: self.events_path@,
            stderr_path: self.stderr_path@,
            conclusion_path: self.conclusion_path@,
        }
    }

    /// A copy of this metadata with the same content.
    pub fn duplicate(&self) -> (r: SessionMeta)
        ensures
            r.vw() == self.vw(),
    {
        SessionMeta {
            id: self.id.clone(),
            title: self.title.clone(),
            created_at_ms: self.created_at_ms,
            last_used_at_ms: self.last_used_at_ms,
            cwd: clone_opt(&self.cwd),
            status: self.status,
            codex_session_id: clone_opt(&self.codex_session_id),
            context_window: self.context_window,
            context_used_tokens: self.context_used_tokens,
            context_left_pct: self.context_left_pct,
            events_path: self.events_path.clone(),
            stderr_path: self.stderr_path.clone(),
            conclusion_path: self.conclusion_path.clone(),
        }
    }

    /// This metadata with `last_used_at_ms` bumped to `now` and nothing else
    /// changed, as the touch operation does.
    pub fn touched(self, now: u64) -> (r: SessionMeta)
        ensures
            r.vw() == (SessionMetaView { last_used_at_ms: now, ..self.vw() }),
    {
        SessionMeta { last_used_at_ms: now, ..self }
    }

    /// This metadata with its context-window triple overwritten from a
    /// usage snapshot, as every `thread/tokenUsage/updated` does.
    pub fn with_context(self, snapshot: crate::usage::TokenUsageSnapshot) -> (r: SessionMeta)
        ensures
            r.vw() == (SessionMetaView {
                context_window: Some(snapshot.window),
                context_used_tokens: Some(snapshot.total_tokens),
                context_left_pct: Some(snapshot.pct_left),
                ..self.vw()
            }),
    {
        SessionMeta {
            context_window: Some(snapshot.window),
            context_used_tokens: Some(snapshot.total_tokens),
            context_left_pct: Some(snapshot.pct_left),
            ..self
        }
    }

    /// This metadata with its status replaced.
    pub fn with_status(self, status: SessionStatus) -> (r: SessionMeta)
        ensures
            r.vw() == (SessionMetaView { status: status, ..self.vw() }),
    {
        SessionMeta { status, ..self }
    }

    /// This metadata with its thread id replaced, as persisted when the
    /// agent returns a thread id that differs from the stored one.
    pub fn with_thread_id(self, thread_id: String) -> (r: SessionMeta)
        ensures
            r.vw() == (SessionMetaView {
                codex_session_id: Some(thread_id@),
                ..self.vw()
            }),
    {
        SessionMeta { codex_session_id: Some(thread_id), ..self }
    }

    /// This metadata with its title replaced, as rename does on a local
    /// session.
    pub fn with_title(self, title: String) -> (r: SessionMeta)
        ensures
            r.vw() == (SessionMetaView { title: title@, ..self.vw() }),
    {
        SessionMeta { title, ..self }
    }
}

/// Copies an optional string.
pub fn clone_opt(o: &Option<String>) -> (r: Option<String>)
    ensures
        opt_view(r) == opt_view(*o),
{
    match o {
        Some(s) => Some(s.clone()),
        None => None,
    }
}

/// The merge of a local session with its native counterpart: the local
/// entry keeps everything of its own, adopts the native working directory
/// when it has none, takes the earlier creation time and the later
/// last-used time.
pub open spec fn spec_merge(local: SessionMetaView, native: SessionMetaView) -> SessionMetaView {
    SessionMetaView {
        cwd: if local.cwd is None {
            native.cwd
        } else {
            local.cwd
        },
        created_at_ms: if native.created_at_ms < local.created_at_ms {
            native.created_at_ms
        } else {
            local.created_at_ms
        },
        last_used_at_ms: if native.last_used_at_ms > local.last_used_at_ms {
            native.last_used_at_ms
        } else {
            local.last_used_at_ms
        },
        ..local
    }
}

/// Merges a native listing entry into a local one (see [`spec_merge`]).
pub fn merge_native_into_local(local: SessionMeta, native: &SessionMeta) -> (r: SessionMeta)
    ensures
        r.vw() == spec_merge(local.vw(), native.vw()),
        r.vw().created_at_ms <= local.vw().created_at_ms,
        r.vw().created_at_ms <= native.vw().created_at_ms,
        r.vw().last_used_at_ms >= local.vw().last_used_at_ms,
        r.vw().last_used_at_ms >= native.vw().last_used_at_ms,
        r.vw().created_at_ms == local.vw().created_at_ms || r.vw().created_at_ms
            == native.vw().created_at_ms,
        r.vw().last_used_at_ms == local.vw().last_used_at_ms || r.vw().last_used_at_ms
            == native.vw().last_used_at_ms,
        local.vw().cwd is Some ==> r.vw().cwd == local.vw().cwd,
        local.vw().cwd is None ==> r.vw().cwd == native.vw().cwd,
{
    let cwd = if local.cwd.is_none() {
        clone_opt(&native.cwd)
    } else {
        local.cwd
    };
    let created = if native.created_at_ms < local.created_at_ms {
        native.created_at_ms
    } else {
        local.created_at_ms
    };
    let last_used = if native.last_used_at_ms > local.last_used_at_ms {
        native.last_used_at_ms
    } else {
        local.last_used_at_ms
    };
    SessionMeta {
        cwd,
        created_at_ms: created,
        last_used_at_ms: last_used,
        id: local.id,
        title: local.title,
        status: local.status,
        codex_session_id: local.codex_session_id,
        context_window: local.context_window,
        context_used_tokens: local.context_used_tokens,
        context_left_pct: local.context_left_pct,
        events_path: local.events_path,
        stderr_path: local.stderr_path,
        conclusion_path: local.conclusion_path,
    }
}

/// The key sessions are listed by: the later of last-used and created.
pub open spec fn spec_recency(m: SessionMetaView) -> u64 {
    if m.last_used_at_ms > m.created_at_ms {
        m.last_used_at_ms
    } else {
        m.created_at_ms
    }
}

/// Whether `s` is ordered most recent first.
pub open spec fn sorted_by_recency_desc(s: Seq<SessionMeta>) -> bool {
    forall|i: int, j: int|
        0 <= i < j < s.len() ==> spec_recency(#[trigger] s[i].vw()) >= spec_recency(
            #[trigger] s[j].vw(),
        )
}

fn recency(m: &SessionMeta) -> (r: u64)
    ensures
        r == spec_recency(m.vw()),
{
    if m.last_used_at_ms > m.created_at_ms {
        m.last_used_at_ms
    } else {
        m.created_at_ms
    }
}

/// Sorts sessions most recent first; the result holds exactly the input
/// sessions.
pub fn sort_sessions(v: Vec<SessionMeta>) -> (r: Vec<SessionMeta>)
    ensures
        sorted_by_recency_desc(r@),
        r@.to_multiset() == v@.to_multiset(),
{
    let ghost orig = v@.to_multiset();
    let mut work = v;
    let mut out: Vec<SessionMeta> = Vec::new();
    while work.len() > 0
        invariant
            out@.to_multiset().add(work@.to_multiset()) == orig,
            sorted_by_recency_desc(out@),
            forall|i: int, j: int|
                0 <= i < out@.len() && 0 <= j < work@.len() ==> spec_recency(
                    #[trigger] out@[i].vw(),
                ) >= spec_recency(#[trigger] work@[j].vw()),
        decreases work@.len(),
    {
        let n = work.len();
        let mut m: usize = 0;
        let mut best = recency(&work[0]);
        let mut j: usize = 1;
        while j < n
            invariant
                0 <= m < j <= n == work@.len(),
                best == spec_recency(work@[m as int].vw()),
                forall|k: int|
                    0 <= k < j ==> best >= spec_recency(#[trigger] work@[k].vw()),
            decreases n - j,
        {
            let cand = recency(&work[j]);
            if cand > best {
                m = j;
                best = cand;
            }
            j = j + 1;
        }
        let x = work.remove(m);
        out.push(x);
    }
    proof {
        assert(work@.to_multiset() =~= vstd::multiset::Multiset::empty());
        assert(out@.to_multiset() =~= orig);
    }
    out
}

} // verus!

verus! {

/// The JSON value of an optional string: `null` when the option is empty,
/// the way the on-disk metadata writes options.
pub open spec fn jv_of_opt_str(o: Option<Seq<char>>) -> JsonView {
    match o {
        Option::Some(s) => JsonView::Str(s),
        Option::None => JsonView::Null,
    }
}

/// The JSON value of an optional unsigned number.
pub open spec fn jv_of_opt_u64(o: Option<u64>) -> JsonView {
    match o {
        Option::Some(u) => JsonView::UInt(u),
        Option::None => JsonView::Null,
    }
}

/// The JSON object a [`SessionMeta`] serializes to, fields in declaration
/// order.
pub open spec fn spec_meta_json(m: SessionMetaView) -> JsonView {
    JsonView::Obj(
        seq![
            ("id"@, JsonView::Str(m.id)),
            ("title"@, JsonView::Str(m.title)),
            ("created_at_ms"@, JsonView::UInt(m.created_at_ms)),
            ("last_used_at_ms"@, JsonView::UInt(m.last_used_at_ms)),
            ("cwd"@, jv_of_opt_str(m.cwd)),
            ("status"@, JsonView::Str(spec_status_str(m.status))),
            ("codex_session_id"@, jv_of_opt_str(m.codex_session_id)),
            ("context_window"@, jv_of_opt_u64(m.context_window)),
            ("context_used_tokens"@, jv_of_opt_u64(m.context_used_tokens)),
            (
                "context_left_pct"@,
                match m.context_left_pct {
                    Option::Some(p) => JsonView::UInt(p as u64),
                    Option::None => JsonView::Null,
                },
            ),
            ("events_path"@, JsonView::Str(m.events_path)),
            ("stderr_path"@, JsonView::Str(m.stderr_path)),
            ("conclusion_path"@, JsonView::Str(m.conclusion_path)),
        ],
    )
}

fn json_of_opt_string(o: &Option<String>) -> (r: Json)
    ensures
        r.deep() == jv_of_opt_str(opt_view(*o)),
{
    match o {
        Some(s) => Json::Str(s.clone()),
        None => Json::Null,
    }
}

fn json_of_opt_u64(o: &Option<u64>) -> (r: Json)
    ensures
        r.deep() == jv_of_opt_u64(*o),
{
    match o {
        Some(u) => Json::UInt(*u),
        None => Json::Null,
    }
}

/// The wire name of a status value.
pub fn status_str(s: SessionStatus) -> (r: &'static str)
    ensures
        r@ == spec_status_str(s),
{
    match s {
        SessionStatus::Running => "running",
        SessionStatus::Done => "done",
        SessionStatus::Error => "error",
    }
}

/// Builds the JSON object of a [`SessionMeta`] (see [`spec_meta_json`]).
pub fn meta_to_json(m: &SessionMeta) -> (r: Json)
    ensures
        r.deep() == spec_meta_json(m.vw()),
{
    let mut b = ObjBuilder::new();
    b.field("id", Json::Str(m.id.clone()));
    b.field("title", Json::Str(m.title.clone()));
    b.field("created_at_ms", Json::UInt(m.created_at_ms));
    b.field("last_used_at_ms", Json::UInt(m.last_used_at_ms));
    b.field("cwd", json_of_opt_string(&m.cwd));
    b.field("status", Json::Str(status_str(m.status).to_owned()));
    b.field("codex_session_id", json_of_opt_string(&m.codex_session_id));
    b.field("context_window", json_of_opt_u64(&m.context_window));
    b.field("context_used_tokens", json_of_opt_u64(&m.context_used_tokens));
    b.field(
        "context_left_pct",
        match m.context_left_pct {
            Some(p) => Json::UInt(p as u64),
            None => Json::Null,
        },
    );
    b.field("events_path", Json::Str(m.events_path.clone()));
    b.field("stderr_path", Json::Str(m.stderr_path.clone()));
    b.field("conclusion_path", Json::Str(m.conclusion_path.clone()));
    proof {
        assert(b.view() =~= spec_meta_json(m.vw())->Obj_0);
    }
    b.finish()
}

/// The serialized text of a [`SessionMeta`].
pub fn meta_to_json_line(m: &SessionMeta) -> (r: String)
    ensures
        r@ == json_text(spec_meta_json(m.vw())),
{
    let j = meta_to_json(m);
    json_to_string(&j)
}

/// A required string field, as the derived deserializer reads it.
pub open spec fn jv_req_str(v: JsonView, key: Seq<char>) -> Option<Seq<char>> {
    jv_get_str(v, key)
}

/// A required unsigned field: present and an unsigned JSON number.
pub open spec fn jv_req_u64(v: JsonView, key: Seq<char>) -> Option<u64> {
    match jv_get(v, key) {
        Option::Some(JsonView::UInt(u)) => Some(u),
        _ => None,
    }
}

/// An optional string field: absent or `null` reads as `None`; a string
/// reads as `Some`; any other shape rejects the document, as the derived
/// deserializer does.
pub open spec fn jv_opt_str(v: JsonView, key: Seq<char>) -> Option<Option<Seq<char>>> {
    match jv_get(v, key) {
        Option::None => Some(None),
        Option::Some(JsonView::Null) => Some(None),
        Option::Some(JsonView::Str(s)) => Some(Some(s)),
        Option::Some(_) => None,
    }
}

/// An optional unsigned field, read like [`jv_opt_str`].
pub open spec fn jv_opt_u64(v: JsonView, key: Seq<char>) -> Option<Option<u64>> {
    match jv_get(v, key) {
        Option::None => Some(None),
        Option::Some(JsonView::Null) => Some(None),
        Option::Some(JsonView::UInt(u)) => Some(Some(u)),
        Option::Some(_) => None,
    }
}

/// The status a wire name denotes.
pub open spec fn spec_status_of(s: Seq<char>) -> Option<SessionStatus> {
    if s == "running"@ {
        Some(SessionStatus::Running)
    } else if s == "done"@ {
        Some(SessionStatus::Done)
    } else if s == "error"@ {
        Some(SessionStatus::Error)
    } else {
        None
    }
}

/// The metadata a parsed `meta.json` value denotes: required fields must be
/// present with the right shape, `last_used_at_ms` may be absent (read as
/// zero), the context triple and the option strings may be absent or null.
pub open spec fn spec_meta_of_json(v: JsonView) -> Option<SessionMetaView> {
    let id = jv_req_str(v, "id"@);
    let title = jv_req_str(v, "title"@);
    let created = jv_req_u64(v, "created_at_ms"@);
    let last_used: Option<u64> = match jv_get(v, "last_used_at_ms"@) {
        Option::None => Some(0u64),
        Option::Some(JsonView::UInt(u)) => Some(u),
        Option::Some(_) => None,
    };
    let cwd = jv_opt_str(v, "cwd"@);
    let status = match jv_req_str(v, "status"@) {
        Option::Some(s) => spec_status_of(s),
        Option::None => None,
    };
    let thread = jv_opt_str(v, "codex_session_id"@);
    let window = jv_opt_u64(v, "context_window"@);
    let used = jv_opt_u64(v, "context_used_tokens"@);
    let pct: Option<Option<u8>> = match jv_get(v, "context_left_pct"@) {
        Option::None => Some(None),
        Option::Some(JsonView::Null) => Some(None),
        Option::Some(JsonView::UInt(u)) => if u <= 255 {
            Some(Some(u as u8))
        } else {
            None
        },
        Option::Some(_) => None,
    };
    let events = jv_req_str(v, "events_path"@);
    let stderr = jv_req_str(v, "stderr_path"@);
    let conclusion = jv_req_str(v, "conclusion_path"@);
    if id is Some && title is Some && created is Some && last_used is Some && cwd is Some && status
        is Some && thread is Some && window is Some && used is Some && pct is Some && events is Some
        && stderr is Some && conclusion is Some {
        Some(
            SessionMetaView {
                id: id->0,
                title: title->0,
                created_at_ms: created->0,
                last_used_at_ms: last_used->0,
                cwd: cwd->0,
                status: status->0,
                codex_session_id: thread->0,
                context_window: window->0,
                context_used_tokens: used->0,
                context_left_pct: pct->0,
                events_path: events->0,
                stderr_path: stderr->0,
                conclusion_path: conclusion->0,
            },
        )
    } else {
        None
    }
}

/// The metadata read back from disk: the parsed value with a zero
/// `last_used_at_ms` defaulted to the creation time.
pub open spec fn spec_meta_read(v: JsonView) -> Option<SessionMetaView> {
    match spec_meta_of_json(v) {
        Option::Some(m) => Some(
            if m.last_used_at_ms == 0 {
                SessionMetaView { last_used_at_ms: m.created_at_ms, ..m }
            } else {
                m
            },
        ),
        Option::None => None,
    }
}

fn get_req_str(v: &Json, key: &str) -> (r: Option<String>)
    ensures
        opt_view(r) == jv_req_str(v.deep(), key@),
{
    match v.get_str(key) {
        Some(s) => Some(s.clone()),
        None => None,
    }
}

fn get_req_u64(v: &Json, key: &str) -> (r: Option<u64>)
    ensures
        r == jv_req_u64(v.deep(), key@),
{
    match v.get(key) {
        Some(Json::UInt(u)) => Some(*u),
        _ => None,
    }
}

fn get_opt_str(v: &Json, key: &str) -> (r: Option<Option<String>>)
    ensures
        match r {
            Some(o) => jv_opt_str(v.deep(), key@) == Some(opt_view(o)),
            None => jv_opt_str(v.deep(), key@) is None,
        },
{
    match v.get(key) {
        None => Some(None),
        Some(Json::Null) => Some(None),
        Some(Json::Str(s)) => Some(Some(s.clone())),
        Some(_) => None,
    }
}

fn get_opt_u64(v: &Json, key: &str) -> (r: Option<Option<u64>>)
    ensures
        r == jv_opt_u64(v.deep(), key@),
{
    match v.get(key) {
        None => Some(None),
        Some(Json::Null) => Some(None),
        Some(Json::UInt(u)) => Some(Some(*u)),
        Some(_) => None,
    }
}

/// Reads a parsed `meta.json` value back into a [`SessionMeta`], applying
/// the read-time default for `last_used_at_ms` (see [`spec_meta_read`]).
pub fn meta_from_json(v: &Json) -> (r: Option<SessionMeta>)
    ensures
        match r {
            Some(m) => spec_meta_read(v.deep()) == Some(m.vw()),
            None => spec_meta_read(v.deep()) is None,
        },
{
    let id = get_req_str(v, "id");
    let title = get_req_str(v, "title");
    let created = get_req_u64(v, "created_at_ms");
    let last_used: Option<u64> = match v.get("last_used_at_ms") {
        None => Some(0u64),
        Some(Json::UInt(u)) => Some(*u),
        Some(_) => None,
    };
    let cwd = get_opt_str(v, "cwd");
    let status: Option<SessionStatus> = match v.get_str("status") {
        Some(s) => {
            if crate::text::str_eq(s.as_str(), "running") {
                Some(SessionStatus::Running)
            } else if crate::text::str_eq(s.as_str(), "done") {
                Some(SessionStatus::Done)
            } else if crate::text::str_eq(s.as_str(), "error") {
                Some(SessionStatus::Error)
            } else {
                None
            }
        },
        None => None,
    };
    let thread = get_opt_str(v, "codex_session_id");
    let window = get_opt_u64(v, "context_window");
    let used = get_opt_u64(v, "context_used_tokens");
    let pct: Option<Option<u8>> = match v.get("context_left_pct") {
        None => Some(None),
        Some(Json::Null) => Some(None),
        Some(Json::UInt(u)) => {
            if *u <= 255 {
                Some(Some(*u as u8))
            } else {
                None
            }
        },
        Some(_) => None,
    };
    let events = get_req_str(v, "events_path");
    let stderr = get_req_str(v, "stderr_path");
    let conclusion = get_req_str(v, "conclusion_path");
    match (id, title, created, last_used, cwd, status, thread, window, used, pct, events, stderr,
        conclusion,
    ) {
        (
            Some(id),
            Some(title),
            Some(created),
            Some(last_used),
            Some(cwd),
            Some(status),
            Some(thread),
            Some(window),
            Some(used),
            Some(pct),
            Some(events),
            Some(stderr),
            Some(conclusion),
        ) => {
            let lu = if last_used == 0 {
                created
            } else {
                last_used
            };
            Some(
                SessionMeta {
                    id,
                    title,
                    created_at_ms: created,
                    last_used_at_ms: lu,
                    cwd,
                    status,
                    codex_session_id: thread,
                    context_window: window,
                    context_used_tokens: used,
                    context_left_pct: pct,
                    events_path: events,
                    stderr_path: stderr,
                    conclusion_path: conclusion,
                },
            )
        },
        _ => None,
    }
}

} // verus!



verus! {
proof fn lemma_meta_field_0(m: SessionMetaView)
    ensures
        crate::json::jv_get(spec_meta_json(m), "id"@) == Some(JsonView::Str(m.id)),
{
    reveal_strlit("id");
    let pairs = spec_meta_json(m)->Obj_0;
    assert(crate::json::jv_get_from(pairs, "id"@, 0) == Some(pairs[0].1));
}

proof fn lemma_meta_field_1(m: SessionMetaView)
    ensures
        crate::json::jv_get(spec_meta_json(m), "title"@) == Some(JsonView::Str(m.title)),
{
    reveal_strlit("id");
    reveal_strlit("title");
    let pairs = spec_meta_json(m)->Obj_0;
    assert(crate::json::jv_get_from(pairs, "title"@, 0) == crate::json::jv_get_from(pairs, "title"@, 1)) by {
        assert(("id"@).len() == 2);
        assert(("title"@).len() == 5);
        assert(pairs[0].0 != "title"@);
    }
    assert(crate::json::jv_get_from(pairs, "title"@, 1) == Some(pairs[1].1));
}

proof fn lemma_meta_field_2(m: SessionMetaView)
    ensures
        crate::json::jv_get(spec_meta_json(m), "created_at_ms"@) == Some(JsonView::UInt(m.created_at_ms)),
{
    reveal_strlit("id");
    reveal_strlit("title");
    reveal_strlit("created_at_ms");
    let pairs = spec_meta_json(m)->Obj_0;
    assert(crate::json::jv_get_from(pairs, "created_at_ms"@, 0) == crate::json::jv_get_from(pairs, "created_at_ms"@, 1)) by {
        assert(("id"@).len() == 2);
        assert(("created_at_ms"@).len() == 13);
        assert(pairs[0].0 != "created_at_ms"@);
    }
    assert(crate::json::jv_get_from(pairs, "created_at_ms"@, 1) == crate::json::jv_get_from(pairs, "created_at_ms"@, 2)) by {
        assert(("title"@).len() == 5);
        assert(("created_at_ms"@).len() == 13);
        assert(pairs[1].0 != "created_at_ms"@);
    }
    assert(crate::json::jv_get_from(pairs, "created_at_ms"@, 2) == Some(pairs[2].1));
}

proof fn lemma_meta_field_3(m: SessionMetaView)
    ensures
        crate::json::jv_get(spec_meta_json(m), "last_used_at_ms"@) == Some(JsonView::UInt(m.last_used_at_ms)),
{
    reveal_strlit("id");
    reveal_strlit("title");
    reveal_strlit("created_at_ms");
    reveal_strlit("last_used_at_ms");
    let pairs = spec_meta_json(m)->Obj_0;
    assert(crate::json::jv_get_from(pairs, "last_used_at_ms"@, 0) == crate::json::jv_get_from(pairs, "last_used_at_ms"@, 1)) by {
        assert(("id"@).len() == 2);
        assert(("last_used_at_ms"@).len() == 15);
        assert(pairs[0].0 != "last_used_at_ms"@);
    }
    assert(crate::json::jv_get_from(pairs, "last_used_at_ms"@, 1) == crate::json::jv_get_from(pairs, "last_used_at_ms"@, 2)) by {
        assert(("title"@).len() == 5);
        assert(("last_used_at_ms"@).len() == 15);
        assert(pairs[1].0 != "last_used_at_ms"@);
    }
    assert(crate::json::jv_get_from(pairs, "last_used_at_ms"@, 2) == crate::json::jv_get_from(pairs, "last_used_at_ms"@, 3)) by {
        assert(("created_at_ms"@).len() == 13);
        assert(("last_used_at_ms"@).len() == 15);
        assert(pairs[2].0 != "last_used_at_ms"@);
    }
    assert(crate::json::jv_get_from(pairs, "last_used_at_ms"@, 3) == Some(pairs[3].1));
}

proof fn lemma_meta_field_4(m: SessionMetaView)
    ensures
        crate::json::jv_get(spec_meta_json(m), "cwd"@) == Some(jv_of_opt_str(m.cwd)),
{
    reveal_strlit("id");
    reveal_strlit("title");
    reveal_strlit("created_at_ms");
    reveal_strlit("last_used_at_ms");
    reveal_strlit("cwd");
    let pairs = spec_meta_json(m)->Obj_0;
    assert(crate::json::jv_get_from(pairs, "cwd"@, 0) == crate::json::jv_get_from(pairs, "cwd"@, 1)) by {
        assert(("id"@).len() == 2);
        assert(("cwd"@).len() == 3);
        assert(pairs[0].0 != "cwd"@);
    }
    assert(crate::json::jv_get_from(pairs, "cwd"@, 1) == crate::json::jv_get_from(pairs, "cwd"@, 2)) by {
        assert(("title"@).len() == 5);
        assert(("cwd"@).len() == 3);
        assert(pairs[1].0 != "cwd"@);
    }
    assert(crate::json::jv_get_from(pairs, "cwd"@, 2) == crate::json::jv_get_from(pairs, "cwd"@, 3)) by {
        assert(("created_at_ms"@).len() == 13);
        assert(("cwd"@).len() == 3);
        assert(pairs[2].0 != "cwd"@);
    }
    assert(crate::json::jv_get_from(pairs, "cwd"@, 3) == crate::json::jv_get_from(pairs, "cwd"@, 4)) by {
        assert(("last_used_at_ms"@).len() == 15);
        assert(("cwd"@).len() == 3);
        assert(pairs[3].0 != "cwd"@);
    }
    assert(crate::json::jv_get_from(pairs, "cwd"@, 4) == Some(pairs[4].1));
}

proof fn lemma_meta_field_5(m: SessionMetaView)
    ensures
        crate::json::jv_get(spec_meta_json(m), "status"@) == Some(JsonView::Str(spec_status_str(m.status))),
{
    reveal_strlit("id");
    reveal_strlit("title");
    reveal_strlit("created_at_ms");
    reveal_strlit("last_used_at_ms");
    reveal_strlit("cwd");
    reveal_strlit("status");
    let pairs = spec_meta_json(m)->Obj_0;
    assert(crate::json::jv_get_from(pairs, "status"@, 0) == crate::json::jv_get_from(pairs, "status"@, 1)) by {
        assert(("id"@).len() == 2);
        assert(("status"@).len() == 6);
        assert(pairs[0].0 != "status"@);
    }
    assert(crate::json::jv_get_from(pairs, "status"@, 1) == crate::json::jv_get_from(pairs, "status"@, 2)) by {
        assert(("title"@).len() == 5);
        assert(("status"@).len() == 6);
        assert(pairs[1].0 != "status"@);
    }
    assert(crate::json::jv_get_from(pairs, "status"@, 2) == crate::json::jv_get_from(pairs, "status"@, 3)) by {
        assert(("created_at_ms"@).len() == 13);
        assert(("status"@).len() == 6);
        assert(pairs[2].0 != "status"@);
    }
    assert(crate::json::jv_get_from(pairs, "status"@, 3) == crate::json::jv_get_from(pairs, "status"@, 4)) by {
        assert(("last_used_at_ms"@).len() == 15);
        assert(("status"@).len() == 6);
        assert(pairs[3].0 != "status"@);
    }
    assert(crate::json::jv_get_from(pairs, "status"@, 4) == crate::json::jv_get_from(pairs, "status"@, 5)) by {
        assert(("cwd"@).len() == 3);
        assert(("status"@).len() == 6);
        assert(pairs[4].0 != "status"@);
    }
    assert(crate::json::jv_get_from(pairs, "status"@, 5) == Some(pairs[5].1));
}

proof fn lemma_meta_field_6(m: SessionMetaView)
    ensures
        crate::json::jv_get(spec_meta_json(m), "codex_session_id"@) == Some(jv_of_opt_str(m.codex_session_id)),
{
    reveal_strlit("id");
    reveal_strlit("title");
    reveal_strlit("created_at_ms");
    reveal_strlit("last_used_at_ms");
    reveal_strlit("cwd");
    reveal_strlit("status");
    reveal_strlit("codex_session_id");
    let pairs = spec_meta_json(m)->Obj_0;
    assert(crate::json::jv_get_from(pairs, "codex_session_id"@, 0) == crate::json::jv_get_from(pairs, "codex_session_id"@, 1)) by {
        assert(("id"@).len() == 2);
        assert(("codex_session_id"@).len() == 16);
        assert(pairs[0].0 != "codex_session_id"@);
    }
    assert(crate::json::jv_get_from(pairs, "codex_session_id"@, 1) == crate::json::jv_get_from(pairs, "codex_session_id"@, 2)) by {
        assert(("title"@).len() == 5);
        assert(("codex_session_id"@).len() == 16);
        assert(pairs[1].0 != "codex_session_id"@);
    }
    assert(crate::json::jv_get_from(pairs, "codex_session_id"@, 2) == crate::json::jv_get_from(pairs, "codex_session_id"@, 3)) by {
        assert(("created_at_ms"@).len() == 13);
        assert(("codex_session_id"@).len() == 16);
        assert(pairs[2].0 != "codex_session_id"@);
    }
    assert(crate::json::jv_get_from(pairs, "codex_session_id"@, 3) == crate::json::jv_get_from(pairs, "codex_session_id"@, 4)) by {
        assert(("last_used_at_ms"@).len() == 15);
        assert(("codex_session_id"@).len() == 16);
        assert(pairs[3].0 != "codex_session_id"@);
    }
    assert(crate::json::jv_get_from(pairs, "codex_session_id"@, 4) == crate::json::jv_get_from(pairs, "codex_session_id"@, 5)) by {
        assert(("cwd"@).len() == 3);
        assert(("codex_session_id"@).len() == 16);
        assert(pairs[4].0 != "codex_session_id"@);
    }
    assert(crate::json::jv_get_from(pairs, "codex_session_id"@, 5) == crate::json::jv_get_from(pairs, "codex_session_id"@, 6)) by {
        assert(("status"@).len() == 6);
        assert(("codex_session_id"@).len() == 16);
        assert(pairs[5].0 != "codex_session_id"@);
    }
    assert(crate::json::jv_get_from(pairs, "codex_session_id"@, 6) == Some(pairs[6].1));
}

proof fn lemma_meta_field_7(m: SessionMetaView)
    ensures
        crate::json::jv_get(spec_meta_json(m), "context_window"@) == Some(jv_of_opt_u64(m.context_window)),
{
    reveal_strlit("id");
    reveal_strlit("title");
    reveal_strlit("created_at_ms");
    reveal_strlit("last_used_at_ms");
    reveal_strlit("cwd");
    reveal_strlit("status");
    reveal_strlit("codex_session_id");
    reveal_strlit("context_window");
    let pairs = spec_meta_json(m)->Obj_0;
    assert(crate::json::jv_get_from(pairs, "context_window"@, 0) == crate::json::jv_get_from(pairs, "context_window"@, 1)) by {
        assert(("id"@).len() == 2);
        assert(("context_window"@).len() == 14);
        assert(pairs[0].0 != "context_window"@);
    }
    assert(crate::json::jv_get_from(pairs, "context_window"@, 1) == crate::json::jv_get_from(pairs, "context_window"@, 2)) by {
        assert(("title"@).len() == 5);
        assert(("context_window"@).len() == 14);
        assert(pairs[1].0 != "context_window"@);
    }
    assert(crate::json::jv_get_from(pairs, "context_window"@, 2) == crate::json::jv_get_from(pairs, "context_window"@, 3)) by {
        assert(("created_at_ms"@).len() == 13);
        assert(("context_window"@).len() == 14);
        assert(pairs[2].0 != "context_window"@);
    }
    assert(crate::json::jv_get_from(pairs, "context_window"@, 3) == crate::json::jv_get_from(pairs, "context_window"@, 4)) by {
        assert(("last_used_at_ms"@).len() == 15);
        assert(("context_window"@).len() == 14);
        assert(pairs[3].0 != "context_window"@);
    }
    assert(crate::json::jv_get_from(pairs, "context_window"@, 4) == crate::json::jv_get_from(pairs, "context_window"@, 5)) by {
        assert(("cwd"@).len() == 3);
        assert(("context_window"@).len() == 14);
        assert(pairs[4].0 != "context_window"@);
    }
    assert(crate::json::jv_get_from(pairs, "context_window"@, 5) == crate::json::jv_get_from(pairs, "context_window"@, 6)) by {
        assert(("status"@).len() == 6);
        assert(("context_window"@).len() == 14);
        assert(pairs[5].0 != "context_window"@);
    }
    assert(crate::json::jv_get_from(pairs, "context_window"@, 6) == crate::json::jv_get_from(pairs, "context_window"@, 7)) by {
        assert(("codex_session_id"@).len() == 16);
        assert(("context_window"@).len() == 14);
        assert(pairs[6].0 != "context_window"@);
    }
    assert(crate::json::jv_get_from(pairs, "context_window"@, 7) == Some(pairs[7].1));
}

proof fn lemma_meta_field_8(m: SessionMetaView)
    ensures
        crate::json::jv_get(spec_meta_json(m), "context_used_tokens"@) == Some(jv_of_opt_u64(m.context_used_tokens)),
{
    reveal_strlit("id");
    reveal_strlit("title");
    reveal_strlit("created_at_ms");
    reveal_strlit("last_used_at_ms");
    reveal_strlit("cwd");
    reveal_strlit("status");
    reveal_strlit("codex_session_id");
    reveal_strlit("context_window");
    reveal_strlit("context_used_tokens");
    let pairs = spec_meta_json(m)->Obj_0;
    assert(crate::json::jv_get_from(pairs, "context_used_tokens"@, 0) == crate::json::jv_get_from(pairs, "context_used_tokens"@, 1)) by {
        assert(("id"@).len() == 2);
        assert(("context_used_tokens"@).len() == 19);
        assert(pairs[0].0 != "context_used_tokens"@);
    }
    assert(crate::json::jv_get_from(pairs, "context_used_tokens"@, 1) == crate::json::jv_get_from(pairs, "context_used_tokens"@, 2)) by {
        assert(("title"@).len() == 5);
        assert(("context_used_tokens"@).len() == 19);
        assert(pairs[1].0 != "context_used_tokens"@);
    }
    assert(crate::json::jv_get_from(pairs, "context_used_tokens"@, 2) == crate::json::jv_get_from(pairs, "context_used_tokens"@, 3)) by {
        assert(("created_at_ms"@).len() == 13);
        assert(("context_used_tokens"@).len() == 19);
        assert(pairs[2].0 != "context_used_tokens"@);
    }
    assert(crate::json::jv_get_from(pairs, "context_used_tokens"@, 3) == crate::json::jv_get_from(pairs, "context_used_tokens"@, 4)) by {
        assert(("last_used_at_ms"@).len() == 15);
        assert(("context_used_tokens"@).len() == 19);
        assert(pairs[3].0 != "context_used_tokens"@);
    }
    assert(crate::json::jv_get_from(pairs, "context_used_tokens"@, 4) == crate::json::jv_get_from(pairs, "context_used_tokens"@, 5)) by {
        assert(("cwd"@).len() == 3);
        assert(("context_used_tokens"@).len() == 19);
        assert(pairs[4].0 != "context_used_tokens"@);
    }
    assert(crate::json::jv_get_from(pairs, "context_used_tokens"@, 5) == crate::json::jv_get_from(pairs, "context_used_tokens"@, 6)) by {
        assert(("status"@).len() == 6);
        assert(("context_used_tokens"@).len() == 19);
        assert(pairs[5].0 != "context_used_tokens"@);
    }
    assert(crate::json::jv_get_from(pairs, "context_used_tokens"@, 6) == crate::json::jv_get_from(pairs, "context_used_tokens"@, 7)) by {
        assert(("codex_session_id"@).len() == 16);
        assert(("context_used_tokens"@).len() == 19);
        assert(pairs[6].0 != "context_used_tokens"@);
    }
    assert(crate::json::jv_get_from(pairs, "context_used_tokens"@, 7) == crate::json::jv_get_from(pairs, "context_used_tokens"@, 8)) by {
        assert(("context_window"@).len() == 14);
        assert(("context_used_tokens"@).len() == 19);
        assert(pairs[7].0 != "context_used_tokens"@);
    }
    assert(crate::json::jv_get_from(pairs, "context_used_tokens"@, 8) == Some(pairs[8].1));
}

proof fn lemma_meta_field_9(m: SessionMetaView)
    ensures
        crate::json::jv_get(spec_meta_json(m), "context_left_pct"@) == Some(match m.context_left_pct { Option::Some(p) => JsonView::UInt(p as u64), Option::None => JsonView::Null }),
{
    reveal_strlit("id");
    reveal_strlit("title");
    reveal_strlit("created_at_ms");
    reveal_strlit("last_used_at_ms");
    reveal_strlit("cwd");
    reveal_strlit("status");
    reveal_strlit("codex_session_id");
    reveal_strlit("context_window");
    reveal_strlit("context_used_tokens");
    reveal_strlit("context_left_pct");
    let pairs = spec_meta_json(m)->Obj_0;
    assert(crate::json::jv_get_from(pairs, "context_left_pct"@, 0) == crate::json::jv_get_from(pairs, "context_left_pct"@, 1)) by {
        assert(("id"@).len() == 2);
        assert(("context_left_pct"@).len() == 16);
        assert(pairs[0].0 != "context_left_pct"@);
    }
    assert(crate::json::jv_get_from(pairs, "context_left_pct"@, 1) == crate::json::jv_get_from(pairs, "context_left_pct"@, 2)) by {
        assert(("title"@).len() == 5);
        assert(("context_left_pct"@).len() == 16);
        assert(pairs[1].0 != "context_left_pct"@);
    }
    assert(crate::json::jv_get_from(pairs, "context_left_pct"@, 2) == crate::json::jv_get_from(pairs, "context_left_pct"@, 3)) by {
        assert(("created_at_ms"@).len() == 13);
        assert(("context_left_pct"@).len() == 16);
        assert(pairs[2].0 != "context_left_pct"@);
    }
    assert(crate::json::jv_get_from(pairs, "context_left_pct"@, 3) == crate::json::jv_get_from(pairs, "context_left_pct"@, 4)) by {
        assert(("last_used_at_ms"@).len() == 15);
        assert(("context_left_pct"@).len() == 16);
        assert(pairs[3].0 != "context_left_pct"@);
    }
    assert(crate::json::jv_get_from(pairs, "context_left_pct"@, 4) == crate::json::jv_get_from(pairs, "context_left_pct"@, 5)) by {
        assert(("cwd"@).len() == 3);
        assert(("context_left_pct"@).len() == 16);
        assert(pairs[4].0 != "context_left_pct"@);
    }
    assert(crate::json::jv_get_from(pairs, "context_left_pct"@, 5) == crate::json::jv_get_from(pairs, "context_left_pct"@, 6)) by {
        assert(("status"@).len() == 6);
        assert(("context_left_pct"@).len() == 16);
        assert(pairs[5].0 != "context_left_pct"@);
    }
    assert(crate::json::jv_get_from(pairs, "context_left_pct"@, 6) == crate::json::jv_get_from(pairs, "context_left_pct"@, 7)) by {
        assert(("codex_session_id"@).len() == 16);
        assert(("context_left_pct"@).len() == 16);
        assert(("codex_session_id"@)[2] == 'd');
        assert(("context_left_pct"@)[2] == 'n');
        assert(pairs[6].0 != "context_left_pct"@);
    }
    assert(crate::json::jv_get_from(pairs, "context_left_pct"@, 7) == crate::json::jv_get_from(pairs, "context_left_pct"@, 8)) by {
        assert(("context_window"@).len() == 14);
        assert(("context_left_pct"@).len() == 16);
        assert(pairs[7].0 != "context_left_pct"@);
    }
    assert(crate::json::jv_get_from(pairs, "context_left_pct"@, 8) == crate::json::jv_get_from(pairs, "context_left_pct"@, 9)) by {
        assert(("context_used_tokens"@).len() == 19);
        assert(("context_left_pct"@).len() == 16);
        assert(pairs[8].0 != "context_left_pct"@);
    }
    assert(crate::json::jv_get_from(pairs, "context_left_pct"@, 9) == Some(pairs[9].1));
}

proof fn lemma_meta_field_10(m: SessionMetaView)
    ensures
        crate::json::jv_get(spec_meta_json(m), "events_path"@) == Some(JsonView::Str(m.events_path)),
{
    reveal_strlit("id");
    reveal_strlit("title");
    reveal_strlit("created_at_ms");
    reveal_strlit("last_used_at_ms");
    reveal_strlit("cwd");
    reveal_strlit("status");
    reveal_strlit("codex_session_id");
    reveal_strlit("context_window");
    reveal_strlit("context_used_tokens");
    reveal_strlit("context_left_pct");
    reveal_strlit("events_path");
    let pairs = spec_meta_json(m)->Obj_0;
    assert(crate::json::jv_get_from(pairs, "events_path"@, 0) == crate::json::jv_get_from(pairs, "events_path"@, 1)) by {
        assert(("id"@).len() == 2);
        assert(("events_path"@).len() == 11);
        assert(pairs[0].0 != "events_path"@);
    }
    assert(crate::json::jv_get_from(pairs, "events_path"@, 1) == crate::json::jv_get_from(pairs, "events_path"@, 2)) by {
        assert(("title"@).len() == 5);
        assert(("events_path"@).len() == 11);
        assert(pairs[1].0 != "events_path"@);
    }
    assert(crate::json::jv_get_from(pairs, "events_path"@, 2) == crate::json::jv_get_from(pairs, "events_path"@, 3)) by {
        assert(("created_at_ms"@).len() == 13);
        assert(("events_path"@).len() == 11);
        assert(pairs[2].0 != "events_path"@);
    }
    assert(crate::json::jv_get_from(pairs, "events_path"@, 3) == crate::json::jv_get_from(pairs, "events_path"@, 4)) by {
        assert(("last_used_at_ms"@).len() == 15);
        assert(("events_path"@).len() == 11);
        assert(pairs[3].0 != "events_path"@);
    }
    assert(crate::json::jv_get_from(pairs, "events_path"@, 4) == crate::json::jv_get_from(pairs, "events_path"@, 5)) by {
        assert(("cwd"@).len() == 3);
        assert(("events_path"@).len() == 11);
        assert(pairs[4].0 != "events_path"@);
    }
    assert(crate::json::jv_get_from(pairs, "events_path"@, 5) == crate::json::jv_get_from(pairs, "events_path"@, 6)) by {
        assert(("status"@).len() == 6);
        assert(("events_path"@).len() == 11);
        assert(pairs[5].0 != "events_path"@);
    }
    assert(crate::json::jv_get_from(pairs, "events_path"@, 6) == crate::json::jv_get_from(pairs, "events_path"@, 7)) by {
        assert(("codex_session_id"@).len() == 16);
        assert(("events_path"@).len() == 11);
        assert(pairs[6].0 != "events_path"@);
    }
    assert(crate::json::jv_get_from(pairs, "events_path"@, 7) == crate::json::jv_get_from(pairs, "events_path"@, 8)) by {
        assert(("context_window"@).len() == 14);
        assert(("events_path"@).len() == 11);
        assert(pairs[7].0 != "events_path"@);
    }
    assert(crate::json::jv_get_from(pairs, "events_path"@, 8) == crate::json::jv_get_from(pairs, "events_path"@, 9)) by {
        assert(("context_used_tokens"@).len() == 19);
        assert(("events_path"@).len() == 11);
        assert(pairs[8].0 != "events_path"@);
    }
    assert(crate::json::jv_get_from(pairs, "events_path"@, 9) == crate::json::jv_get_from(pairs, "events_path"@, 10)) by {
        assert(("context_left_pct"@).len() == 16);
        assert(("events_path"@).len() == 11);
        assert(pairs[9].0 != "events_path"@);
    }
    assert(crate::json::jv_get_from(pairs, "events_path"@, 10) == Some(pairs[10].1));
}

proof fn lemma_meta_field_11(m: SessionMetaView)
    ensures
        crate::json::jv_get(spec_meta_json(m), "stderr_path"@) == Some(JsonView::Str(m.stderr_path)),
{
    reveal_strlit("id");
    reveal_strlit("title");
    reveal_strlit("created_at_ms");
    reveal_strlit("last_used_at_ms");
    reveal_strlit("cwd");
    reveal_strlit("status");
    reveal_strlit("codex_session_id");
    reveal_strlit("context_window");
    reveal_strlit("context_used_tokens");
    reveal_strlit("context_left_pct");
    reveal_strlit("events_path");
    reveal_strlit("stderr_path");
    let pairs = spec_meta_json(m)->Obj_0;
    assert(crate::json::jv_get_from(pairs, "stderr_path"@, 0) == crate::json::jv_get_from(pairs, "stderr_path"@, 1)) by {
        assert(("id"@).len() == 2);
        assert(("stderr_path"@).len() == 11);
        assert(pairs[0].0 != "stderr_path"@);
    }
    assert(crate::json::jv_get_from(pairs, "stderr_path"@, 1) == crate::json::jv_get_from(pairs, "stderr_path"@, 2)) by {
        assert(("title"@).len() == 5);
        assert(("stderr_path"@).len() == 11);
        assert(pairs[1].0 != "stderr_path"@);
    }
    assert(crate::json::jv_get_from(pairs, "stderr_path"@, 2) == crate::json::jv_get_from(pairs, "stderr_path"@, 3)) by {
        assert(("created_at_ms"@).len() == 13);
        assert(("stderr_path"@).len() == 11);
        assert(pairs[2].0 != "stderr_path"@);
    }
    assert(crate::json::jv_get_from(pairs, "stderr_path"@, 3) == crate::json::jv_get_from(pairs, "stderr_path"@, 4)) by {
        assert(("last_used_at_ms"@).len() == 15);
        assert(("stderr_path"@).len() == 11);
        assert(pairs[3].0 != "stderr_path"@);
    }
    assert(crate::json::jv_get_from(pairs, "stderr_path"@, 4) == crate::json::jv_get_from(pairs, "stderr_path"@, 5)) by {
        assert(("cwd"@).len() == 3);
        assert(("stderr_path"@).len() == 11);
        assert(pairs[4].0 != "stderr_path"@);
    }
    assert(crate::json::jv_get_from(pairs, "stderr_path"@, 5) == crate::json::jv_get_from(pairs, "stderr_path"@, 6)) by {
        assert(("status"@).len() == 6);
        assert(("stderr_path"@).len() == 11);
        assert(pairs[5].0 != "stderr_path"@);
    }
    assert(crate::json::jv_get_from(pairs, "stderr_path"@, 6) == crate::json::jv_get_from(pairs, "stderr_path"@, 7)) by {
        assert(("codex_session_id"@).len() == 16);
        assert(("stderr_path"@).len() == 11);
        assert(pairs[6].0 != "stderr_path"@);
    }
    assert(crate::json::jv_get_from(pairs, "stderr_path"@, 7) == crate::json::jv_get_from(pairs, "stderr_path"@, 8)) by {
        assert(("context_window"@).len() == 14);
        assert(("stderr_path"@).len() == 11);
        assert(pairs[7].0 != "stderr_path"@);
    }
    assert(crate::json::jv_get_from(pairs, "stderr_path"@, 8) == crate::json::jv_get_from(pairs, "stderr_path"@, 9)) by {
        assert(("context_used_tokens"@).len() == 19);
        assert(("stderr_path"@).len() == 11);
        assert(pairs[8].0 != "stderr_path"@);
    }
    assert(crate::json::jv_get_from(pairs, "stderr_path"@, 9) == crate::json::jv_get_from(pairs, "stderr_path"@, 10)) by {
        assert(("context_left_pct"@).len() == 16);
        assert(("stderr_path"@).len() == 11);
        assert(pairs[9].0 != "stderr_path"@);
    }
    assert(crate::json::jv_get_from(pairs, "stderr_path"@, 10) == crate::json::jv_get_from(pairs, "stderr_path"@, 11)) by {
        assert(("events_path"@).len() == 11);
        assert(("stderr_path"@).len() == 11);
        assert(("events_path"@)[0] == 'e');
        assert(("stderr_path"@)[0] == 's');
        assert(pairs[10].0 != "stderr_path"@);
    }
    assert(crate::json::jv_get_from(pairs, "stderr_path"@, 11) == Some(pairs[11].1));
}

proof fn lemma_meta_field_12(m: SessionMetaView)
    ensures
        crate::json::jv_get(spec_meta_json(m), "conclusion_path"@) == Some(JsonView::Str(m.conclusion_path)),
{
    reveal_strlit("id");
    reveal_strlit("title");
    reveal_strlit("created_at_ms");
    reveal_strlit("last_used_at_ms");
    reveal_strlit("cwd");
    reveal_strlit("status");
    reveal_strlit("codex_session_id");
    reveal_strlit("context_window");
    reveal_strlit("context_used_tokens");
    reveal_strlit("context_left_pct");
    reveal_strlit("events_path");
    reveal_strlit("stderr_path");
    reveal_strlit("conclusion_path");
    let pairs = spec_meta_json(m)->Obj_0;
    assert(crate::json::jv_get_from(pairs, "conclusion_path"@, 0) == crate::json::jv_get_from(pairs, "conclusion_path"@, 1)) by {
        assert(("id"@).len() == 2);
        assert(("conclusion_path"@).len() == 15);
        assert(pairs[0].0 != "conclusion_path"@);
    }
    assert(crate::json::jv_get_from(pairs, "conclusion_path"@, 1) == crate::json::jv_get_from(pairs, "conclusion_path"@, 2)) by {
        assert(("title"@).len() == 5);
        assert(("conclusion_path"@).len() == 15);
        assert(pairs[1].0 != "conclusion_path"@);
    }
    assert(crate::json::jv_get_from(pairs, "conclusion_path"@, 2) == crate::json::jv_get_from(pairs, "conclusion_path"@, 3)) by {
        assert(("created_at_ms"@).len() == 13);
        assert(("conclusion_path"@).len() == 15);
        assert(pairs[2].0 != "conclusion_path"@);
    }
    assert(crate::json::jv_get_from(pairs, "conclusion_path"@, 3) == crate::json::jv_get_from(pairs, "conclusion_path"@, 4)) by {
        assert(("last_used_at_ms"@).len() == 15);
        assert(("conclusion_path"@).len() == 15);
        assert(("last_used_at_ms"@)[0] == 'l');
        assert(("conclusion_path"@)[0] == 'c');
        assert(pairs[3].0 != "conclusion_path"@);
    }
    assert(crate::json::jv_get_from(pairs, "conclusion_path"@, 4) == crate::json::jv_get_from(pairs, "conclusion_path"@, 5)) by {
        assert(("cwd"@).len() == 3);
        assert(("conclusion_path"@).len() == 15);
        assert(pairs[4].0 != "conclusion_path"@);
    }
    assert(crate::json::jv_get_from(pairs, "conclusion_path"@, 5) == crate::json::jv_get_from(pairs, "conclusion_path"@, 6)) by {
        assert(("status"@).len() == 6);
        assert(("conclusion_path"@).len() == 15);
        assert(pairs[5].0 != "conclusion_path"@);
    }
    assert(crate::json::jv_get_from(pairs, "conclusion_path"@, 6) == crate::json::jv_get_from(pairs, "conclusion_path"@, 7)) by {
        assert(("codex_session_id"@).len() == 16);
        assert(("conclusion_path"@).len() == 15);
        assert(pairs[6].0 != "conclusion_path"@);
    }
    assert(crate::json::jv_get_from(pairs, "conclusion_path"@, 7) == crate::json::jv_get_from(pairs, "conclusion_path"@, 8)) by {
        assert(("context_window"@).len() == 14);
        assert(("conclusion_path"@).len() == 15);
        assert(pairs[7].0 != "conclusion_path"@);
    }
    assert(crate::json::jv_get_from(pairs, "conclusion_path"@, 8) == crate::json::jv_get_from(pairs, "conclusion_path"@, 9)) by {
        assert(("context_used_tokens"@).len() == 19);
        assert(("conclusion_path"@).len() == 15);
        assert(pairs[8].0 != "conclusion_path"@);
    }
    assert(crate::json::jv_get_from(pairs, "conclusion_path"@, 9) == crate::json::jv_get_from(pairs, "conclusion_path"@, 10)) by {
        assert(("context_left_pct"@).len() == 16);
        assert(("conclusion_path"@).len() == 15);
        assert(pairs[9].0 != "conclusion_path"@);
    }
    assert(crate::json::jv_get_from(pairs, "conclusion_path"@, 10) == crate::json::jv_get_from(pairs, "conclusion_path"@, 11)) by {
        assert(("events_path"@).len() == 11);
        assert(("conclusion_path"@).len() == 15);
        assert(pairs[10].0 != "conclusion_path"@);
    }
    assert(crate::json::jv_get_from(pairs, "conclusion_path"@, 11) == crate::json::jv_get_from(pairs, "conclusion_path"@, 12)) by {
        assert(("stderr_path"@).len() == 11);
        assert(("conclusion_path"@).len() == 15);
        assert(pairs[11].0 != "conclusion_path"@);
    }
    assert(crate::json::jv_get_from(pairs, "conclusion_path"@, 12) == Some(pairs[12].1));
}

/// Metadata round trip: what `meta.json` serialization writes, the reader
/// reads back unchanged — so a thread id persisted into the metadata
/// survives a restart. A zero `last_used_at_ms` comes back as the creation
/// time, the reader's defaulting rule.
pub proof fn lemma_meta_round_trip(m: SessionMetaView)
    ensures
        spec_meta_read(spec_meta_json(m)) == Some(
            if m.last_used_at_ms == 0 {
                SessionMetaView { last_used_at_ms: m.created_at_ms, ..m }
            } else {
                m
            },
        ),
{
    reveal_strlit("running");
    reveal_strlit("done");
    reveal_strlit("error");
    lemma_meta_field_0(m);
    lemma_meta_field_1(m);
    lemma_meta_field_2(m);
    lemma_meta_field_3(m);
    lemma_meta_field_4(m);
    lemma_meta_field_5(m);
    lemma_meta_field_6(m);
    lemma_meta_field_7(m);
    lemma_meta_field_8(m);
    lemma_meta_field_9(m);
    lemma_meta_field_10(m);
    lemma_meta_field_11(m);
    lemma_meta_field_12(m);
    assert(spec_status_of(spec_status_str(m.status)) == Some(m.status)) by {
        assert(("running"@).len() == 7);
        assert(("done"@).len() == 4);
        assert(("error"@).len() == 5);
    }
}

} // verus!
