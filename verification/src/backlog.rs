//! The SSE catch-up backlog: tail clamping, per-line timestamping from the
//! three sources, and the strict (timestamp, sequence) ordering.

use vstd::prelude::*;
use crate::json::{Json, JsonView, json_of, json_text, jv_get, jv_get_str, parse_json};
use crate::events::spec_ui_event;

verus! {

broadcast use {vstd::seq_lib::group_to_multiset_ensures, vstd::multiset::group_multiset_axioms};

/// The effective backlog size: the `tail` query parameter clamped to
/// [50, 50000], zero disabling the backlog, and 4000 when absent.
pub open spec fn spec_effective_tail(q: Option<usize>) -> usize {
    match q {
        Option::Some(n) => if n == 0 {
            0usize
        } else if n < 50 {
            50usize
        } else if n > 50000 {
            50000usize
        } else {
            n
        },
        Option::None => 4000usize,
    }
}

/// Clamps the requested tail (see [`spec_effective_tail`]).
pub fn effective_tail(q: Option<usize>) -> (r: usize)
    ensures
        r == spec_effective_tail(q),
{
    match q {
        Some(0) => 0,
        Some(n) => {
            if n < 50 {
                50
            } else if n > 50000 {
                50000
            } else {
                n
            }
        },
        None => 4000,
    }
}

/// One backlog message: its merge timestamp, its arrival sequence number,
/// and the serialized `codex_event` payload.
pub struct BacklogEntry {
    pub ts_ms: u64,
    pub seq: u64,
    pub payload: String,
}

/// The timestamp of a rollout tail line: its top-level `timestamp` field
/// parsed as RFC 3339, falling back to the read time.
pub open spec fn spec_native_line_ts(line: Seq<char>, now: u64) -> u64 {
    match json_of(line) {
        Option::Some(v) => match jv_get_str(v, "timestamp"@) {
            Option::Some(t) => match crate::timefmt::spec_parse_rfc3339_ms(t) {
                Option::Some(ms) => ms,
                Option::None => now,
            },
            Option::None => now,
        },
        Option::None => now,
    }
}

/// The timestamp of an event-log line: its persisted `_ts_ms` field,
/// falling back to the read time.
pub open spec fn spec_event_line_ts(line: Seq<char>, now: u64) -> u64 {
    match json_of(line) {
        Option::Some(v) => match jv_get(v, "_ts_ms"@) {
            Option::Some(JsonView::UInt(t)) => t,
            _ => now,
        },
        Option::None => now,
    }
}

/// The `codex_event` payload of a backlog line from a `stdout`-labelled
/// source: the raw line plus its parsed form when it parses.
pub open spec fn spec_stdout_payload(sid: Seq<char>, ts: u64, raw: Seq<char>) -> Seq<char> {
    json_text(
        spec_ui_event(
            sid,
            ts,
            "stdout"@,
            raw,
            match json_of(raw) {
                Option::Some(v) => Some(v),
                Option::None => None,
            },
        ),
    )
}

/// Builds the backlog entry of one rollout tail line.
pub fn native_backlog_entry(sid: &str, raw: &str, now: u64, seq: u64) -> (r: BacklogEntry)
    ensures
        r.ts_ms == spec_native_line_ts(raw@, now),
        r.seq == seq,
        r.payload@ == spec_stdout_payload(sid@, spec_native_line_ts(raw@, now), raw@),
{
    let parsed = parse_json(raw);
    let ts: u64 = match &parsed {
        Some(v) => match v.get_str("timestamp") {
            Some(t) => match crate::timefmt::parse_rfc3339_ms(t.as_str()) {
                Some(ms) => ms,
                None => now,
            },
            None => now,
        },
        None => now,
    };
    let payload = crate::events::ui_event_line(sid, ts, "stdout", raw, parsed.as_ref());
    BacklogEntry { ts_ms: ts, seq, payload }
}

/// Builds the backlog entry of one event-log line.
pub fn event_backlog_entry(sid: &str, raw: &str, now: u64, seq: u64) -> (r: BacklogEntry)
    ensures
        r.ts_ms == spec_event_line_ts(raw@, now),
        r.seq == seq,
        r.payload@ == spec_stdout_payload(sid@, spec_event_line_ts(raw@, now), raw@),
{
    let parsed = parse_json(raw);
    let ts: u64 = match &parsed {
        Some(v) => match v.get("_ts_ms") {
            Some(Json::UInt(t)) => *t,
            _ => now,
        },
        None => now,
    };
    let payload = crate::events::ui_event_line(sid, ts, "stdout", raw, parsed.as_ref());
    BacklogEntry { ts_ms: ts, seq, payload }
}

/// Builds the backlog entry of one stderr-log line: stamped at read time,
/// with no parsed form.
pub fn stderr_backlog_entry(sid: &str, raw: &str, now: u64, seq: u64) -> (r: BacklogEntry)
    ensures
        r.ts_ms == now,
        r.seq == seq,
        r.payload@ == json_text(spec_ui_event(sid@, now, "stderr"@, raw@, None)),
{
    let payload = crate::events::ui_event_line(sid, now, "stderr", raw, None);
    BacklogEntry { ts_ms: now, seq, payload }
}

/// Strict order on backlog keys.
pub open spec fn key_lt(a: (u64, u64), b: (u64, u64)) -> bool {
    a.0 < b.0 || (a.0 == b.0 && a.1 < b.1)
}

/// Non-strict order on backlog keys.
pub open spec fn key_le(a: (u64, u64), b: (u64, u64)) -> bool {
    a.0 < b.0 || (a.0 == b.0 && a.1 <= b.1)
}

/// The merge key of an entry.
pub open spec fn entry_key(e: BacklogEntry) -> (u64, u64) {
    (e.ts_ms, e.seq)
}

/// Whether the entries are in strictly ascending (timestamp, sequence)
/// order.
pub open spec fn strictly_sorted(s: Seq<BacklogEntry>) -> bool {
    forall|i: int, j: int|
        0 <= i < j < s.len() ==> key_lt(entry_key(#[trigger] s[i]), entry_key(#[trigger] s[j]))
}

/// Whether no two entries share a sequence number.
pub open spec fn distinct_seqs(s: Seq<BacklogEntry>) -> bool {
    forall|i: int, j: int|
        0 <= i < j < s.len() ==> (#[trigger] s[i]).seq != (#[trigger] s[j]).seq
}

fn key_le_exec(a: &BacklogEntry, b: &BacklogEntry) -> (r: bool)
    ensures
        r == key_le(entry_key(*a), entry_key(*b)),
{
    a.ts_ms < b.ts_ms || (a.ts_ms == b.ts_ms && a.seq <= b.seq)
}

/// Sorts the backlog by (timestamp, sequence). With distinct sequence
/// numbers the order is strict, so the merged backlog is strictly ordered
/// by (timestamp, sequence) and holds exactly the given entries.
pub fn sort_backlog(v: Vec<BacklogEntry>) -> (r: Vec<BacklogEntry>)
    requires
        distinct_seqs(v@),
    ensures
        strictly_sorted(r@),
        r@.to_multiset() == v@.to_multiset(),
{
    let ghost orig = v@.to_multiset();
    let mut work = v;
    let mut out: Vec<BacklogEntry> = Vec::new();
    while work.len() > 0
        invariant
            out@.to_multiset().add(work@.to_multiset()) == orig,
            strictly_sorted(out@),
            distinct_seqs(out@),
            distinct_seqs(work@),
            forall|i: int, j: int|
                0 <= i < out@.len() && 0 <= j < work@.len() ==> (#[trigger] out@[i]).seq != (
                #[trigger] work@[j]).seq,
            forall|i: int, j: int|
                0 <= i < out@.len() && 0 <= j < work@.len() ==> key_lt(
                    entry_key(#[trigger] out@[i]),
                    entry_key(#[trigger] work@[j]),
                ),
        decreases work@.len(),
    {
        let n = work.len();
        let mut m: usize = 0;
        let mut j: usize = 1;
        while j < n
            invariant
                0 <= m < j <= n == work@.len(),
                forall|k: int|
                    0 <= k < j ==> key_le(
                        entry_key(work@[m as int]),
                        entry_key(#[trigger] work@[k]),
                    ),
            decreases n - j,
        {
            if key_le_exec(&work[j], &work[m]) {
                m = j;
            }
            j = j + 1;
        }
        let ghost pw = work@;
        let ghost po = out@;
        let x = work.remove(m);
        out.push(x);
        proof {
            assert(work@ =~= pw.remove(m as int));
            assert(out@ =~= po.push(pw[m as int]));
            assert forall|i: int, jj: int|
                0 <= i < out@.len() && 0 <= jj < work@.len() implies key_lt(
                entry_key(#[trigger] out@[i]),
                entry_key(#[trigger] work@[jj]),
            ) && out@[i].seq != work@[jj].seq by {
                let pj: int = if jj < m {
                    jj
                } else {
                    jj + 1
                };
                assert(work@[jj] == pw[pj]);
                if i < out@.len() - 1 {
                    assert(out@[i] == po[i]);
                } else {
                    assert(out@[i] == pw[m as int]);
                    assert(key_le(entry_key(pw[m as int]), entry_key(pw[pj])));
                    if m < pj {
                        assert(pw[m as int].seq != pw[pj].seq);
                    } else {
                        assert(pw[pj].seq != pw[m as int].seq);
                    }
                }
            }
            assert forall|i: int, jj: int|
                0 <= i < jj < work@.len() implies (#[trigger] work@[i]).seq != (
            #[trigger] work@[jj]).seq by {
                let pi: int = if i < m {
                    i
                } else {
                    i + 1
                };
                let pj: int = if jj < m {
                    jj
                } else {
                    jj + 1
                };
                assert(work@[i] == pw[pi] && work@[jj] == pw[pj]);
            }
        }
    }
    proof {
        assert(work@.to_multiset() =~= vstd::multiset::Multiset::empty());
        assert(out@.to_multiset() =~= orig);
    }
    out
}

/// The last `tail` entries' payloads, in order; all of them when `tail`
/// covers the whole backlog.
pub fn take_last_payloads(v: Vec<BacklogEntry>, tail: usize) -> (r: Vec<String>)
    ensures
        ({
            let start: int = if v@.len() > tail {
                v@.len() - tail
            } else {
                0
            };
            r@.len() == v@.len() - start && forall|k: int|
                0 <= k < r@.len() ==> (#[trigger] r@[k])@ == v@[start + k].payload@
        }),
{
    let n = v.len();
    let start: usize = if n > tail {
        n - tail
    } else {
        0
    };
    let mut out: Vec<String> = Vec::new();
    let mut i = start;
    while i < n
        invariant
            start <= i <= n == v@.len(),
            out@.len() == i - start,
            forall|k: int| 0 <= k < out@.len() ==> (#[trigger] out@[k])@ == v@[start + k].payload@,
        decreases n - i,
    {
        out.push(v[i].payload.clone());
        i = i + 1;
    }
    out
}

} // verus!

verus! {

/// Backlog-order law: two strictly (timestamp, sequence)-ordered
/// arrangements of the same entries are the same arrangement — given the
/// entries, the merged backlog the subscriber sees is uniquely determined.
pub proof fn lemma_backlog_order_unique(x: Seq<BacklogEntry>, y: Seq<BacklogEntry>)
    requires
        strictly_sorted(x),
        strictly_sorted(y),
        x.to_multiset() == y.to_multiset(),
    ensures
        x =~= y,
    decreases x.len(),
{
    if x.len() == 0 || y.len() == 0 {
        assert(x.to_multiset().len() == x.len());
        assert(y.to_multiset().len() == y.len());
    } else {
        assert(x.contains(x[0]));
        assert(x.to_multiset().contains(x[0]));
        assert(y.to_multiset().contains(x[0]));
        assert(y.contains(x[0]));
        assert(y.contains(y[0]));
        assert(y.to_multiset().contains(y[0]));
        assert(x.to_multiset().contains(y[0]));
        assert(x.contains(y[0]));
        let i = choose|i: int| 0 <= i < x.len() && x[i] == y[0];
        let j = choose|j: int| 0 <= j < y.len() && y[j] == x[0];
        if i > 0 {
            assert(key_lt(entry_key(x[0]), entry_key(x[i])));
            if j > 0 {
                assert(key_lt(entry_key(y[0]), entry_key(y[j])));
                assert(false);
            } else {
                assert(x[0] == y[0]);
                assert(false);
            }
        }
        assert(x[0] == y[0]);
        assert(x.drop_first() =~= x.remove(0));
        assert(y.drop_first() =~= y.remove(0));
        assert(x.remove(0).to_multiset() =~= x.to_multiset().remove(x[0]));
        assert(y.remove(0).to_multiset() =~= y.to_multiset().remove(y[0]));
        assert(x.drop_first().to_multiset() =~= x.to_multiset().remove(x[0]));
        assert(y.drop_first().to_multiset() =~= y.to_multiset().remove(y[0]));
        assert(strictly_sorted(x.drop_first()));
        assert(strictly_sorted(y.drop_first()));
        lemma_backlog_order_unique(x.drop_first(), y.drop_first());
        assert forall|k: int| 0 <= k < x.len() implies x[k] == y[k] by {
            if k > 0 {
                assert(x.drop_first()[k - 1] == y.drop_first()[k - 1]);
            }
        }
    }
}

} // verus!
