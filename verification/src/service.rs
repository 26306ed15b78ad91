//! The service-level decisions: session creation and continuation, the
//! native listing entry, stop and delete outcomes, and the small wrappers
//! around the clock and the id generator.

use vstd::prelude::*;
use crate::json::{Json, JsonView, json_text};
use crate::meta::{SessionMeta, SessionMetaView, SessionStatus, opt_view};
use crate::text::{spec_trim, spec_safe_title, spec_should_show};

verus! {

/// Relies on `std::time::SystemTime::now`: milliseconds since the epoch,
/// zero when the clock reads before it. Nothing is promised of the value:
/// every caller states what holds of any reading.
#[verifier::external_body]
pub fn now_ms() -> (r: u64)
{
    std::time::SystemTime::now().duration_since(std::time::UNIX_EPOCH).unwrap_or_default()
        .as_millis() as u64
}

/// The canonical hyphenated text of the UUID written `s`, when `s` (after
/// trimming) is one; a function of the text alone.
pub uninterp spec fn uuid_canon(s: Seq<char>) -> Option<Seq<char>>;

/// Relies on `uuid::Uuid::parse_str` and its hyphenated `Display`: accepts
/// a UUID in any of the formats the crate parses and returns its canonical
/// lower-case hyphenated form, deterministically in the text.
#[verifier::external_body]
pub fn canonical_uuid(s: &str) -> (r: Option<String>)
    ensures
        match r {
            Some(c) => uuid_canon(s@) == Some(c@),
            None => uuid_canon(s@) is None,
        },
{
    uuid::Uuid::parse_str(s.trim()).ok().map(|u| u.to_string())
}

/// Relies on `uuid::Uuid::new_v4` and its hyphenated `Display`: a fresh
/// random identifier. The value is random; only its shape is promised.
#[verifier::external_body]
pub fn new_session_id() -> (r: String)
    ensures
        r@.len() == 36,
{
    uuid::Uuid::new_v4().to_string()
}

/// The last `max` elements of `lines`, in order — what the tail readers
/// keep of a file.
pub fn tail_lines(lines: Vec<String>, max: usize) -> (r: Vec<String>)
    ensures
        ({
            let start: int = if lines@.len() > max {
                lines@.len() - max
            } else {
                0
            };
            r@.len() == lines@.len() - start && forall|k: int|
                0 <= k < r@.len() ==> (#[trigger] r@[k])@ == lines@[start + k]@
        }),
{
    let n = lines.len();
    let start: usize = if n > max {
        n - max
    } else {
        0
    };
    let mut out: Vec<String> = Vec::new();
    let mut i = start;
    while i < n
        invariant
            start <= i <= n == lines@.len(),
            out@.len() == i - start,
            forall|k: int| 0 <= k < out@.len() ==> (#[trigger] out@[k])@ == lines@[start + k]@,
        decreases n - i,
    {
        out.push(lines[i].clone());
        i = i + 1;
    }
    out
}

/// The record cap of the usage listing: the query value, defaulting to
/// 5000, clamped to [1, 200000].
pub open spec fn spec_max_records(q: Option<usize>) -> usize {
    let n: usize = match q {
        Option::Some(n) => n,
        Option::None => 5000usize,
    };
    if n < 1 {
        1usize
    } else if n > 200000 {
        200000usize
    } else {
        n
    }
}

/// Clamps the usage-record cap (see [`spec_max_records`]).
pub fn max_records(q: Option<usize>) -> (r: usize)
    ensures
        r == spec_max_records(q),
{
    let n: usize = match q {
        Some(n) => n,
        None => 5000,
    };
    if n < 1 {
        1
    } else if n > 200000 {
        200000
    } else {
        n
    }
}

/// The view of the `app.prompt` marker written to the event log when a
/// turn is accepted.
pub open spec fn spec_prompt_event(prompt: Seq<char>, ts: u64) -> JsonView {
    JsonView::Obj(
        seq![
            ("type"@, JsonView::Str("app.prompt"@)),
            ("prompt"@, JsonView::Str(prompt)),
            ("_ts_ms"@, JsonView::UInt(ts)),
        ],
    )
}

/// Builds the serialized `app.prompt` event-log line
/// (see [`spec_prompt_event`]).
pub fn prompt_event_line(prompt: &str, ts: u64) -> (r: String)
    ensures
        r@ == json_text(spec_prompt_event(prompt@, ts)),
{
    let mut b = crate::json::ObjBuilder::new();
    b.field("type", Json::Str("app.prompt".to_owned()));
    b.field("prompt", Json::Str(prompt.to_owned()));
    b.field("_ts_ms", Json::UInt(ts));
    proof {
        assert(b.view() =~= spec_prompt_event(prompt@, ts)->Obj_0);
    }
    let j = b.finish();
    crate::json::json_to_string(&j)
}

/// The trimmed prompt when it is not blank; a blank prompt is rejected
/// with nothing persisted.
pub fn validate_prompt(prompt: &str) -> (r: Option<String>)
    ensures
        match r {
            Some(p) => p@ == spec_trim(prompt@) && spec_trim(prompt@).len() > 0,
            None => spec_trim(prompt@).len() == 0,
        },
{
    let v = crate::text::chars_of(prompt);
    let t = crate::text::trim_chars(&v);
    if t.len() == 0 {
        None
    } else {
        Some(crate::text::string_from_chars(t.as_slice()))
    }
}

/// The metadata of a freshly created session: titled from the prompt,
/// created and last used now, running, with no thread id and no context
/// triple.
pub fn new_session_meta(
    id: String,
    prompt: &str,
    now: u64,
    cwd: Option<String>,
    events_path: String,
    stderr_path: String,
    conclusion_path: String,
) -> (r: SessionMeta)
    ensures
        r.vw() == (SessionMetaView {
            id: id@,
            title: spec_safe_title(prompt@),
            created_at_ms: now,
            last_used_at_ms: now,
            cwd: opt_view(cwd),
            status: SessionStatus::Running,
            codex_session_id: None,
            context_window: None,
            context_used_tokens: None,
            context_left_pct: None,
            events_path: events_path@,
            stderr_path: stderr_path@,
            conclusion_path: conclusion_path@,
        }),
{
    SessionMeta {
        id,
        title: crate::text::safe_title(prompt),
        created_at_ms: now,
        last_used_at_ms: now,
        cwd,
        status: SessionStatus::Running,
        codex_session_id: None,
        context_window: None,
        context_used_tokens: None,
        context_left_pct: None,
        events_path,
        stderr_path,
        conclusion_path,
    }
}

/// The listing entry a native thread produces, at the view level: nothing
/// when its metadata marks a one-shot `exec` invocation, or when neither a
/// user-assigned title nor a shown last prompt gives it a title; otherwise
/// a done session whose id doubles as its thread id.
pub open spec fn spec_native_meta(
    sid: Seq<char>,
    cwd: Option<Seq<char>>,
    originator: Option<Seq<char>>,
    source: Option<Seq<char>>,
    last_prompt: Option<Seq<char>>,
    map_title: Option<Seq<char>>,
    created_at_ms: u64,
    last_used_at_ms: u64,
    latest_path: Seq<char>,
) -> Option<SessionMetaView> {
    if crate::rollout::spec_exec_rollout(originator, source) {
        None
    } else {
        let title: Option<Seq<char>> = match map_title {
            Option::Some(t) => Some(t),
            Option::None => match last_prompt {
                Option::Some(lp) => if spec_should_show(lp) {
                    Some(spec_safe_title(lp))
                } else {
                    None
                },
                Option::None => None,
            },
        };
        match title {
            Option::None => None,
            Option::Some(title) => Some(
                SessionMetaView {
                    id: sid,
                    title,
                    created_at_ms,
                    last_used_at_ms,
                    cwd,
                    status: SessionStatus::Done,
                    codex_session_id: Some(sid),
                    context_window: None,
                    context_used_tokens: None,
                    context_left_pct: None,
                    events_path: latest_path,
                    stderr_path: Seq::empty(),
                    conclusion_path: Seq::empty(),
                },
            ),
        }
    }
}

/// Builds the native listing entry (see [`spec_native_meta`]).
pub fn native_session_meta_from_parts(
    session_id: &str,
    cwd: Option<String>,
    originator: Option<&String>,
    source: Option<&String>,
    last_prompt: Option<&String>,
    map_title: Option<String>,
    created_at_ms: u64,
    last_used_at_ms: u64,
    latest_path: String,
) -> (r: Option<SessionMeta>)
    ensures
        ({
            let s = spec_native_meta(
                session_id@,
                opt_view(cwd),
                match originator {
                    Some(o) => Some(o@),
                    None => None,
                },
                match source {
                    Some(o) => Some(o@),
                    None => None,
                },
                match last_prompt {
                    Some(o) => Some(o@),
                    None => None,
                },
                opt_view(map_title),
                created_at_ms,
                last_used_at_ms,
                latest_path@,
            );
            match r {
                Some(m) => s == Some(m.vw()),
                None => s is None,
            }
        }),
{
    if crate::rollout::rollout_is_exec(originator, source) {
        return None;
    }
    let title: Option<String> = match map_title {
        Some(t) => Some(t),
        None => match last_prompt {
            Some(lp) => {
                if crate::text::should_show_rollout_user_text(lp.as_str()) {
                    Some(crate::text::safe_title(lp.as_str()))
                } else {
                    None
                }
            },
            None => None,
        },
    };
    let title = match title {
        Some(t) => t,
        None => {
            return None;
        },
    };
    Some(
        SessionMeta {
            id: session_id.to_owned(),
            title,
            created_at_ms,
            last_used_at_ms,
            cwd,
            status: SessionStatus::Done,
            codex_session_id: Some(session_id.to_owned()),
            context_window: None,
            context_used_tokens: None,
            context_left_pct: None,
            events_path: latest_path,
            stderr_path: String::new(),
            conclusion_path: String::new(),
        },
    )
}

/// Native hiding law: a rollout whose metadata carries
/// `originator == "codex_exec"` or `source == "exec"` never yields a
/// listing entry, whatever its other parts say.
pub proof fn lemma_native_hiding(
    sid: Seq<char>,
    cwd: Option<Seq<char>>,
    originator: Option<Seq<char>>,
    source: Option<Seq<char>>,
    last_prompt: Option<Seq<char>>,
    map_title: Option<Seq<char>>,
    created_at_ms: u64,
    last_used_at_ms: u64,
    latest_path: Seq<char>,
)
    requires
        originator == Some("codex_exec"@) || source == Some("exec"@),
    ensures
        spec_native_meta(
            sid,
            cwd,
            originator,
            source,
            last_prompt,
            map_title,
            created_at_ms,
            last_used_at_ms,
            latest_path,
        ) is None,
{
}

/// Why a continue request is refused.
#[derive(Clone, Copy, PartialEq, Eq, Structural, Debug)]
pub enum ContinueError {
    AlreadyRunning,
    NotFound,
}

/// Decides a continue request: refused while a run handle exists (the
/// conflict of the at-most-one-turn rule), refused when the session is in
/// neither store, and otherwise the metadata the new turn starts from —
/// the local entry when there is one, else the native entry adopted
/// locally — running, stamped now, with the requested working directory
/// winning over the stored one, and the local file paths installed.
pub fn continue_plan(
    has_handle: bool,
    local: Option<SessionMeta>,
    native: Option<SessionMeta>,
    cwd_req: Option<String>,
    now: u64,
    events_path: String,
    stderr_path: String,
    conclusion_path: String,
) -> (r: Result<SessionMeta, ContinueError>)
    ensures
        has_handle ==> r == Err::<SessionMeta, ContinueError>(ContinueError::AlreadyRunning),
        (!has_handle && local is None && native is None) ==> r == Err::<
            SessionMeta,
            ContinueError,
        >(ContinueError::NotFound),
        (!has_handle && (local is Some || native is Some)) ==> (r matches Ok(m) && ({
            let base = if local is Some {
                local->0.vw()
            } else {
                native->0.vw()
            };
            m.vw() == (SessionMetaView {
                status: SessionStatus::Running,
                last_used_at_ms: now,
                cwd: if opt_view(cwd_req) is Some {
                    opt_view(cwd_req)
                } else {
                    base.cwd
                },
                events_path: events_path@,
                stderr_path: stderr_path@,
                conclusion_path: conclusion_path@,
                ..base
            })
        })),
{
    if has_handle {
        return Err(ContinueError::AlreadyRunning);
    }
    let base: SessionMeta = match local {
        Some(m) => m,
        None => match native {
            Some(m) => m,
            None => {
                return Err(ContinueError::NotFound);
            },
        },
    };
    let cwd = if cwd_req.is_some() {
        cwd_req
    } else {
        base.cwd
    };
    Ok(
        SessionMeta {
            status: SessionStatus::Running,
            last_used_at_ms: now,
            cwd,
            events_path,
            stderr_path,
            conclusion_path,
            id: base.id,
            title: base.title,
            created_at_ms: base.created_at_ms,
            codex_session_id: base.codex_session_id,
            context_window: base.context_window,
            context_used_tokens: base.context_used_tokens,
            context_left_pct: base.context_left_pct,
        },
    )
}

/// What a stop request does beyond taking the cancellation token: which
/// pid to signal, and whether to synthesize `codex_run_finished` because
/// the runner was already gone — exactly when a handle existed whose token
/// had been taken before, or whose receiver was dropped.
pub fn stop_plan(token: Option<(bool, Option<u32>)>, send_failed: bool) -> (r: (
    Option<u32>,
    bool,
))
    ensures
        token is None ==> r == (None::<u32>, false),
        token matches Some(t) ==> r.0 == t.1 && r.1 == (t.0 && send_failed),
{
    match token {
        None => (None, false),
        Some((had_token, pid)) => (pid, had_token && send_failed),
    }
}

/// Whether a delete request finds anything: it reports not-found exactly
/// when the session exists in neither the local store nor the native
/// archive.
pub fn delete_found(local_exists: bool, has_native: bool) -> (r: bool)
    ensures
        r == (local_exists || has_native),
{
    local_exists || has_native
}

/// Whether the native-archive scan cache is still fresh: built, and less
/// than three seconds old.
pub open spec fn spec_cache_fresh(built_at_ms: u64, now: u64) -> bool {
    built_at_ms > 0 && built_at_ms + 3000 > now
}

/// Decides cache freshness (see [`spec_cache_fresh`]).
pub fn cache_is_fresh(built_at_ms: u64, now: u64) -> (r: bool)
    ensures
        r == spec_cache_fresh(built_at_ms, now),
{
    built_at_ms > 0 && (now < built_at_ms || now - built_at_ms < 3000)
}

/// Whether a cached derived record still describes the latest rollout:
/// same path and same modification time.
pub fn derived_cache_valid(
    cached_path: &str,
    cached_mtime_ms: u64,
    latest_path: &str,
    latest_mtime_ms: u64,
) -> (r: bool)
    ensures
        r == (cached_path@ == latest_path@ && cached_mtime_ms == latest_mtime_ms),
{
    crate::text::str_eq(cached_path, latest_path) && cached_mtime_ms == latest_mtime_ms
}

} // verus!
