//! Reading back the service's own event logs, and the agent's global-state
//! file with its thread-title map.

use vstd::prelude::*;
use crate::json::{Json, JsonView, json_of, jv_get, jv_get_str, jv_obj_set, parse_json};

verus! {

/// The thread id recovered from an event log, scanning from line `i`: a
/// `thread.started` record yields its `thread_id`, a `thread/started`
/// notification yields its `params.threadId`; either form ends the scan
/// even when the field is missing, and so does a line that does not parse.
pub open spec fn spec_thread_id_scan(lines: Seq<Seq<char>>, i: int) -> Option<Seq<char>>
    decreases lines.len() - i,
{
    if i < 0 || i >= lines.len() {
        None
    } else {
        match json_of(lines[i]) {
            Option::None => None,
            Option::Some(v) => {
                if jv_get_str(v, "type"@) == Some("thread.started"@) {
                    jv_get_str(v, "thread_id"@)
                } else if jv_get_str(v, "method"@) == Some("thread/started"@) {
                    match jv_get(v, "params"@) {
                        Option::Some(p) => jv_get_str(p, "threadId"@),
                        Option::None => None,
                    }
                } else {
                    spec_thread_id_scan(lines, i + 1)
                }
            },
        }
    }
}

/// Scans an event log for the thread id the agent announced
/// (see [`spec_thread_id_scan`]).
pub fn try_find_codex_session_id(lines: &Vec<String>) -> (r: Option<String>)
    ensures
        ({
            let views = lines@.map_values(|s: String| s@);
            match r {
                Some(t) => spec_thread_id_scan(views, 0) == Some(t@),
                None => spec_thread_id_scan(views, 0) is None,
            }
        }),
{
    let ghost views = lines@.map_values(|s: String| s@);
    let n = lines.len();
    let mut i: usize = 0;
    while i < n
        invariant
            0 <= i <= n == views.len(),
            views == lines@.map_values(|s: String| s@),
            spec_thread_id_scan(views, 0) == spec_thread_id_scan(views, i as int),
        decreases n - i,
    {
        proof {
            assert(views[i as int] == lines@[i as int]@);
        }
        match parse_json(lines[i].as_str()) {
            None => {
                return None;
            },
            Some(v) => {
                if crate::text::opt_string_is(v.get_str("type"), "thread.started") {
                    return match v.get_str("thread_id") {
                        Some(t) => Some(t.clone()),
                        None => None,
                    };
                }
                if crate::text::opt_string_is(v.get_str("method"), "thread/started") {
                    return match v.get("params") {
                        Some(p) => match p.get_str("threadId") {
                            Some(t) => Some(t.clone()),
                            None => None,
                        },
                        None => None,
                    };
                }
            },
        }
        i = i + 1;
    }
    None
}

/// The last agent message in an event log, scanning from line `i` with the
/// message found so far: lines that do not parse are skipped; a legacy
/// `item.*` record with an `agent_message` item, or an `item/completed`
/// notification with an `agentMessage` item, replaces the message with its
/// `text`.
pub open spec fn spec_last_agent_message(
    lines: Seq<Seq<char>>,
    i: int,
    acc: Option<Seq<char>>,
) -> Option<Seq<char>>
    decreases lines.len() - i,
{
    if i < 0 || i >= lines.len() {
        acc
    } else {
        let next = match json_of(lines[i]) {
            Option::None => acc,
            Option::Some(v) => {
                let ty = match jv_get_str(v, "type"@) {
                    Option::Some(t) => t,
                    Option::None => Seq::empty(),
                };
                if !crate::text::has_prefix(ty, "item."@) {
                    if jv_get_str(v, "method"@) == Some("item/completed"@) {
                        match jv_get(v, "params"@) {
                            Option::Some(p) => match jv_get(p, "item"@) {
                                Option::Some(item) => {
                                    if jv_get_str(item, "type"@) == Some("agentMessage"@) {
                                        match jv_get_str(item, "text"@) {
                                            Option::Some(t) => Some(t),
                                            Option::None => acc,
                                        }
                                    } else {
                                        acc
                                    }
                                },
                                Option::None => acc,
                            },
                            Option::None => acc,
                        }
                    } else {
                        acc
                    }
                } else {
                    match jv_get(v, "item"@) {
                        Option::Some(item) => {
                            if jv_get_str(item, "type"@) == Some("agent_message"@) {
                                match jv_get_str(item, "text"@) {
                                    Option::Some(t) => Some(t),
                                    Option::None => acc,
                                }
                            } else {
                                acc
                            }
                        },
                        Option::None => acc,
                    }
                }
            },
        };
        spec_last_agent_message(lines, i + 1, next)
    }
}

/// The conclusion recovered from an event log: the last agent message,
/// with citation spans stripped.
pub open spec fn spec_conclusion_of_log(lines: Seq<Seq<char>>) -> Option<Seq<char>> {
    match spec_last_agent_message(lines, 0, None) {
        Option::Some(t) => Some(crate::text::spec_strip_citations(t)),
        Option::None => None,
    }
}

/// Recovers the conclusion text from an event log
/// (see [`spec_conclusion_of_log`]).
pub fn conclusion_from_event_lines(lines: &Vec<String>) -> (r: Option<String>)
    ensures
        ({
            let views = lines@.map_values(|s: String| s@);
            match r {
                Some(t) => spec_conclusion_of_log(views) == Some(t@),
                None => spec_conclusion_of_log(views) is None,
            }
        }),
{
    let ghost views = lines@.map_values(|s: String| s@);
    let n = lines.len();
    let mut acc: Option<String> = None;
    let mut i: usize = 0;
    while i < n
        invariant
            0 <= i <= n == views.len(),
            views == lines@.map_values(|s: String| s@),
            spec_last_agent_message(views, 0, None) == spec_last_agent_message(
                views,
                i as int,
                crate::rollout::opt_str_view(acc),
            ),
        decreases n - i,
    {
        proof {
            assert(views[i as int] == lines@[i as int]@);
        }
        match parse_json(lines[i].as_str()) {
            None => {},
            Some(v) => {
                let ty_is_item = match v.get_str("type") {
                    Some(t) => {
                        let tv = crate::text::chars_of(t.as_str());
                        let pat = crate::text::chars_of("item.");
                        crate::text::starts_with_chars(&tv, &pat)
                    },
                    None => {
                        proof {
                            reveal_strlit("item.");
                            assert(!crate::text::has_prefix(Seq::<char>::empty(), "item."@));
                        }
                        false
                    },
                };
                if !ty_is_item {
                    if crate::text::opt_string_is(v.get_str("method"), "item/completed") {
                        match v.get("params") {
                            Some(p) => match p.get("item") {
                                Some(item) => {
                                    if crate::text::opt_string_is(
                                        item.get_str("type"),
                                        "agentMessage",
                                    ) {
                                        match item.get_str("text") {
                                            Some(t) => {
                                                acc = Some(t.clone());
                                            },
                                            None => {},
                                        }
                                    }
                                },
                                None => {},
                            },
                            None => {},
                        }
                    }
                } else {
                    match v.get("item") {
                        Some(item) => {
                            if crate::text::opt_string_is(item.get_str("type"), "agent_message") {
                                match item.get_str("text") {
                                    Some(t) => {
                                        acc = Some(t.clone());
                                    },
                                    None => {},
                                }
                            }
                        },
                        None => {},
                    }
                }
            },
        }
        i = i + 1;
    }
    match acc {
        Some(t) => Some(crate::text::strip_tool_citations(t.as_str())),
        None => None,
    }
}

/// The thread-title pairs of the bindings `pairs`, from position `i` on:
/// string titles under non-blank keys, with blank titles dropped and each
/// kept title trimmed.
pub open spec fn spec_titles_from(pairs: Seq<(Seq<char>, JsonView)>, i: int) -> Seq<
    (Seq<char>, Seq<char>),
>
    decreases pairs.len() - i,
{
    if i < 0 || i >= pairs.len() {
        Seq::empty()
    } else {
        let rest = spec_titles_from(pairs, i + 1);
        match pairs[i].1 {
            JsonView::Str(title) => {
                if crate::text::spec_trim(pairs[i].0).len() > 0 && crate::text::spec_trim(
                    title,
                ).len() > 0 {
                    seq![(pairs[i].0, crate::text::spec_trim(title))] + rest
                } else {
                    rest
                }
            },
            _ => rest,
        }
    }
}

/// The thread-title map of a global-state document: the string entries of
/// `.thread-titles.titles`, or nothing when the text does not parse or the
/// path is missing or not an object.
pub open spec fn spec_thread_titles(text: Seq<char>) -> Seq<(Seq<char>, Seq<char>)> {
    match json_of(text) {
        Option::None => Seq::empty(),
        Option::Some(v) => match jv_get(v, "thread-titles"@) {
            Option::Some(tt) => match jv_get(tt, "titles"@) {
                Option::Some(JsonView::Obj(pairs)) => spec_titles_from(pairs, 0),
                _ => Seq::empty(),
            },
            Option::None => Seq::empty(),
        },
    }
}

/// Reads the thread-title map out of the global-state text
/// (see [`spec_thread_titles`]).
pub fn load_codex_thread_titles(text: &str) -> (r: Vec<(String, String)>)
    ensures
        r@.map_values(|p: (String, String)| (p.0@, p.1@)) == spec_thread_titles(text@),
{
    let parsed = match parse_json(text) {
        Some(v) => v,
        None => {
            proof {
                assert(Seq::<(String, String)>::empty().map_values(
                    |p: (String, String)| (p.0@, p.1@),
                ) =~= spec_thread_titles(text@));
            }
            return Vec::new();
        },
    };
    let titles_obj: &Json = match parsed.get("thread-titles") {
        Some(tt) => match tt.get("titles") {
            Some(t) => t,
            None => {
                let r: Vec<(String, String)> = Vec::new();
                proof {
                    assert(r@.map_values(|p: (String, String)| (p.0@, p.1@))
                        =~= spec_thread_titles(text@));
                }
                return r;
            },
        },
        None => {
            let r: Vec<(String, String)> = Vec::new();
            proof {
                assert(r@.map_values(|p: (String, String)| (p.0@, p.1@)) =~= spec_thread_titles(
                    text@,
                ));
            }
            return r;
        },
    };
    match titles_obj {
        Json::Obj(pairs) => {
            let ghost pv = titles_obj.deep()->Obj_0;
            let n = pairs.len();
            let mut out: Vec<(String, String)> = Vec::new();
            let mut i: usize = n;
            while i > 0
                invariant
                    0 <= i <= n == pairs@.len(),
                    *titles_obj == Json::Obj(*pairs),
                    pv == titles_obj.deep()->Obj_0,
                    pv.len() == n,
                    forall|j: int| 0 <= j < n ==> #[trigger] pv[j] == (
                        pairs@[j].0@,
                        pairs@[j].1.deep(),
                    ),
                    out@.map_values(|p: (String, String)| (p.0@, p.1@)) == spec_titles_from(
                        pv,
                        i as int,
                    ),
                decreases i,
            {
                let idx = i - 1;
                let pair = &pairs[idx];
                let ghost before = out@.map_values(|p: (String, String)| (p.0@, p.1@));
                match &pair.1 {
                    Json::Str(title) => {
                        let kv = crate::text::chars_of(pair.0.as_str());
                        let kt = crate::text::trim_chars(&kv);
                        let tv = crate::text::chars_of(title.as_str());
                        let tt = crate::text::trim_chars(&tv);
                        if kt.len() > 0 && tt.len() > 0 {
                            let entry = (
                                pair.0.clone(),
                                crate::text::string_from_chars(tt.as_slice()),
                            );
                            let mut rebuilt: Vec<(String, String)> = Vec::new();
                            rebuilt.push(entry);
                            let mut rest = out;
                            rebuilt.append(&mut rest);
                            out = rebuilt;
                            proof {
                                assert(out@.map_values(|p: (String, String)| (p.0@, p.1@))
                                    =~= spec_titles_from(pv, idx as int));
                            }
                        } else {
                            proof {
                                assert(before =~= spec_titles_from(pv, idx as int));
                            }
                        }
                    },
                    _ => {
                        proof {
                            assert(before =~= spec_titles_from(pv, idx as int));
                        }
                    },
                }
                i = idx;
            }
            out
        },
        _ => {
            let r: Vec<(String, String)> = Vec::new();
            proof {
                assert(r@.map_values(|p: (String, String)| (p.0@, p.1@)) =~= spec_thread_titles(
                    text@,
                ));
            }
            r
        },
    }
}

/// The title bound to `id`, if any.
pub fn title_for(titles: &Vec<(String, String)>, id: &str) -> (r: Option<String>)
    ensures
        ({
            let views = titles@.map_values(|p: (String, String)| (p.0@, p.1@));
            match r {
                Some(t) => exists|i: int|
                    0 <= i < views.len() && (#[trigger] views[i]).0 == id@ && views[i].1 == t@,
                None => forall|i: int| 0 <= i < views.len() ==> (#[trigger] views[i]).0 != id@,
            }
        }),
{
    let n = titles.len();
    let mut i: usize = 0;
    while i < n
        invariant
            0 <= i <= n == titles@.len(),
            forall|j: int| 0 <= j < i ==> (#[trigger] titles@[j]).0@ != id@,
        decreases n - i,
    {
        if crate::text::str_eq(titles[i].0.as_str(), id) {
            let ghost views = titles@.map_values(|p: (String, String)| (p.0@, p.1@));
            proof {
                assert(views[i as int] == (titles@[i as int].0@, titles@[i as int].1@));
            }
            return Some(titles[i].1.clone());
        }
        i = i + 1;
    }
    proof {
        let views = titles@.map_values(|p: (String, String)| (p.0@, p.1@));
        assert forall|j: int| 0 <= j < views.len() implies (#[trigger] views[j]).0 != id@ by {
            assert(views[j] == (titles@[j].0@, titles@[j].1@));
        }
    }
    None
}

} // verus!

verus! {

/// Whether the order array already names `id`.
pub open spec fn spec_order_has(a: Seq<JsonView>, id: Seq<char>) -> bool {
    exists|k: int| 0 <= k < a.len() && #[trigger] a[k] == JsonView::Str(id)
}

/// The global-state document after renaming thread `id` to `title`: a
/// non-object (or absent) root is replaced by an empty object, the nested
/// `thread-titles` and `titles` objects are created when missing or of
/// another shape, `titles[id]` is bound to the new title, and `id` is put
/// at the front of `order` unless it is already listed — the one-way
/// policy the upstream ordering contract leaves open.
pub open spec fn spec_renamed_state(root: Option<JsonView>, id: Seq<char>, title: Seq<char>) -> JsonView {
    let base = match root {
        Option::Some(v) => if v is Obj {
            v
        } else {
            JsonView::Obj(Seq::empty())
        },
        Option::None => JsonView::Obj(Seq::empty()),
    };
    let tt0 = match jv_get(base, "thread-titles"@) {
        Option::Some(t) => if t is Obj {
            t
        } else {
            JsonView::Obj(Seq::empty())
        },
        Option::None => JsonView::Obj(Seq::empty()),
    };
    let titles0 = match jv_get(tt0, "titles"@) {
        Option::Some(t) => if t is Obj {
            t
        } else {
            JsonView::Obj(Seq::empty())
        },
        Option::None => JsonView::Obj(Seq::empty()),
    };
    let titles1 = jv_obj_set(titles0, id, JsonView::Str(title));
    let order0: Seq<JsonView> = match jv_get(tt0, "order"@) {
        Option::Some(JsonView::Arr(a)) => a,
        _ => Seq::empty(),
    };
    let order1: Seq<JsonView> = if spec_order_has(order0, id) {
        order0
    } else {
        seq![JsonView::Str(id)] + order0
    };
    let tt1 = jv_obj_set(jv_obj_set(tt0, "titles"@, titles1), "order"@, JsonView::Arr(order1));
    jv_obj_set(base, "thread-titles"@, tt1)
}

fn clone_obj_or_empty(v: Option<&Json>) -> (r: Json)
    ensures
        r.deep() == (match v {
            Some(x) => if x.deep() is Obj {
                x.deep()
            } else {
                JsonView::Obj(Seq::empty())
            },
            None => JsonView::Obj(Seq::empty()),
        }),
{
    let empty = Json::Obj(Vec::new());
    proof {
        assert(empty.deep()->Obj_0 =~= Seq::<(Seq<char>, JsonView)>::empty());
    }
    match v {
        Some(x) => {
            if matches!(x, Json::Obj(_)) {
                x.deep_clone()
            } else {
                empty
            }
        },
        None => empty,
    }
}

/// Performs the rename edit on the parsed global-state document
/// (see [`spec_renamed_state`]).
pub fn rename_in_global_state(root: Option<&Json>, id: &str, title: &str) -> (r: Json)
    ensures
        r.deep() == spec_renamed_state(
            match root {
                Some(v) => Some(v.deep()),
                None => None,
            },
            id@,
            title@,
        ),
{
    let base = clone_obj_or_empty(root);
    let tt0 = clone_obj_or_empty(base.get("thread-titles"));
    let titles0 = clone_obj_or_empty(tt0.get("titles"));
    let titles1 = titles0.with_field(id.to_owned(), Json::Str(title.to_owned()));
    let order0: Vec<Json> = match tt0.get("order") {
        Some(t) => {
            if matches!(t, Json::Arr(_)) {
                let copy = t.deep_clone();
                match copy {
                    Json::Arr(a) => a,
                    _ => {
                        proof {
                            assert(false);
                        }
                        Vec::new()
                    },
                }
            } else {
                Vec::new()
            }
        },
        None => Vec::new(),
    };
    let ghost order_views = crate::json::deep_seq(order0@);
    let n = order0.len();
    let mut found = false;
    let mut k: usize = 0;
    while k < n
        invariant
            0 <= k <= n == order0@.len(),
            order_views == crate::json::deep_seq(order0@),
            order_views.len() == n,
            forall|j: int| 0 <= j < n ==> #[trigger] order_views[j] == order0@[j].deep(),
            found ==> spec_order_has(order_views, id@),
            !found ==> forall|j: int| 0 <= j < k ==> #[trigger] order_views[j] != JsonView::Str(
                id@,
            ),
        decreases n - k,
    {
        match &order0[k] {
            Json::Str(s) => {
                if crate::text::str_eq(s.as_str(), id) {
                    found = true;
                    proof {
                        assert(order_views[k as int] == JsonView::Str(id@));
                    }
                }
            },
            _ => {},
        }
        k = k + 1;
    }
    let ghost ov0 = order0@;
    let order1: Vec<Json> = if found {
        order0
    } else {
        let mut rebuilt: Vec<Json> = Vec::new();
        rebuilt.push(Json::Str(id.to_owned()));
        let mut rest = order0;
        rebuilt.append(&mut rest);
        rebuilt
    };
    let ghost o1v = order1@;
    let order_json = Json::Arr(order1);
    proof {
        assert(order_json->Arr_0@ == o1v);
        if found {
            assert(order_json.deep()->Arr_0 =~= order_views);
        } else {
            assert(o1v.len() == order_views.len() + 1);
            assert forall|j: int|
                0 <= j < o1v.len() implies #[trigger] crate::json::deep_seq(o1v)[j] == (
            seq![JsonView::Str(id@)] + order_views)[j] by {
                assert(crate::json::deep_seq(o1v)[j] == o1v[j].deep());
                if j > 0 {
                    assert(o1v[j] == ov0[j - 1]);
                    assert(order_views[j - 1] == ov0[j - 1].deep());
                }
            }
            assert(order_json.deep()->Arr_0 =~= seq![JsonView::Str(id@)] + order_views);
        }
    }
    let tt_a = tt0.with_field("titles".to_owned(), titles1);
    let tt_b = tt_a.with_field("order".to_owned(), order_json);
    base.with_field("thread-titles".to_owned(), tt_b)
}

} // verus!
