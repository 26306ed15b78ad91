//! Reading the agent's own on-disk session archive: rollout file names,
//! metadata prefixes, and last-user-prompt extraction.

use vstd::prelude::*;
use crate::text::{
    spec_trim, find_sub_from, has_prefix, has_suffix, trim_chars, chars_of,
    string_from_chars, subrange_chars, find_sub_at, starts_with_chars, ends_with_chars,
};
use crate::json::{Json, JsonView, jv_get, jv_get_str, json_of, parse_json};

verus! {

/// The thread id carried by a rollout file name
/// `rollout-YYYY-MM-DDTHH-MM-SS-<id>.jsonl`: the text after the twenty
/// date-time characters, trimmed; `None` when the name has another shape.
pub open spec fn spec_rollout_session_id(name: Seq<char>) -> Option<Seq<char>> {
    if name.len() < 14 || !has_prefix(name, "rollout-"@) || !has_suffix(name, ".jsonl"@) {
        None
    } else {
        let base = name.subrange(8, name.len() - 6);
        if base.len() <= 20 {
            None
        } else if base[19] != '-' {
            None
        } else {
            let id = spec_trim(base.skip(20));
            if id.len() == 0 {
                None
            } else {
                Some(id)
            }
        }
    }
}

/// Reads the thread id out of a rollout file name
/// (see [`spec_rollout_session_id`]).
pub fn parse_rollout_session_id(file_name: &str) -> (r: Option<String>)
    ensures
        match r {
            Some(s) => spec_rollout_session_id(file_name@) == Some(s@),
            None => spec_rollout_session_id(file_name@) is None,
        },
{
    let v = chars_of(file_name);
    if v.len() < 14 {
        return None;
    }
    let pre = chars_of("rollout-");
    let suf = chars_of(".jsonl");
    if !starts_with_chars(&v, &pre) || !ends_with_chars(&v, &suf) {
        return None;
    }
    let n = v.len();
    let base = subrange_chars(&v, 8, n - 6);
    if base.len() <= 20 {
        return None;
    }
    if base[19] != '-' {
        return None;
    }
    let bn = base.len();
    let tail = subrange_chars(&base, 20, bn);
    proof {
        assert(base@.subrange(20, bn as int) =~= base@.skip(20));
    }
    let id = trim_chars(&tail);
    if id.len() == 0 {
        return None;
    }
    Some(string_from_chars(id.as_slice()))
}

/// A Unicode scalar value: a code point that a `char` may hold.
pub open spec fn is_scalar(c: int) -> bool {
    (0 <= c && c <= 0xd7ff) || (0xe000 <= c && c <= 0x10ffff)
}

/// Relies on `char::from_u32`: `Some` exactly on Unicode scalar values,
/// returning the `char` with that code point.
#[verifier::external_body]
fn char_from_u32(c: u32) -> (r: Option<char>)
    ensures
        r == (if is_scalar(c as int) {
            Some(c as char)
        } else {
            None::<char>
        }),
{
    char::from_u32(c)
}

/// The value of hexadecimal digit `c`, or a negative number when `c` is no
/// such digit.
pub open spec fn hex_digit_val(c: char) -> int {
    if '0' <= c && c <= '9' {
        c as int - '0' as int
    } else if 'a' <= c && c <= 'f' {
        c as int - 'a' as int + 10
    } else if 'A' <= c && c <= 'F' {
        c as int - 'A' as int + 10
    } else {
        -1
    }
}

/// Whether every character of `s` is a hexadecimal digit.
pub open spec fn all_hex(s: Seq<char>) -> bool {
    forall|i: int| 0 <= i < s.len() ==> hex_digit_val(#[trigger] s[i]) >= 0
}

/// The value of the hexadecimal digit string `s`.
pub open spec fn hex_val(s: Seq<char>) -> int
    decreases s.len(),
{
    if s.len() == 0 {
        0
    } else {
        hex_val(s.drop_last()) * 16 + hex_digit_val(s.last())
    }
}

/// What `u32::from_str_radix(s, 16)` accepts: an optional plus sign, then
/// at least one hex digit, with a value that fits in a `u32`.
pub open spec fn spec_parse_hex(s: Seq<char>) -> Option<u32> {
    let body = if s.len() > 0 && s[0] == '+' {
        s.drop_first()
    } else {
        s
    };
    if body.len() > 0 && all_hex(body) && hex_val(body) <= u32::MAX {
        Some(hex_val(body) as u32)
    } else {
        None
    }
}

fn hex_digit_value_of(c: char) -> (r: Option<u32>)
    ensures
        match r {
            Some(d) => hex_digit_val(c) == d && d < 16,
            None => hex_digit_val(c) < 0,
        },
{
    if '0' <= c && c <= '9' {
        Some((c as u32) - ('0' as u32))
    } else if 'a' <= c && c <= 'f' {
        Some((c as u32) - ('a' as u32) + 10)
    } else if 'A' <= c && c <= 'F' {
        Some((c as u32) - ('A' as u32) + 10)
    } else {
        None
    }
}

fn parse_hex_chars(v: &Vec<char>) -> (r: Option<u32>)
    requires
        v@.len() <= 4,
    ensures
        r == spec_parse_hex(v@),
{
    let n = v.len();
    let start: usize = if n > 0 && v[0] == '+' {
        1
    } else {
        0
    };
    let ghost body = if v@.len() > 0 && v@[0] == '+' {
        v@.drop_first()
    } else {
        v@
    };
    proof {
        assert(body =~= v@.skip(start as int));
    }
    if start >= n {
        return None;
    }
    let mut acc: u32 = 0;
    let mut i = start;
    while i < n
        invariant
            start <= i <= n == v@.len(),
            n <= 4,
            body == v@.skip(start as int),
            body == (if v@.len() > 0 && v@[0] == '+' {
                v@.drop_first()
            } else {
                v@
            }),
            crate::rollout::all_hex(body.take(i - start as int)),
            acc == hex_val(body.take(i - start as int)),
            acc < (if i - start == 0 {
                1int
            } else if i - start == 1 {
                16int
            } else if i - start == 2 {
                256int
            } else if i - start == 3 {
                4096int
            } else {
                65536int
            }),
        decreases n - i,
    {
        let c = v[i];
        let d: u32 = match hex_digit_value_of(c) {
            Some(d) => d,
            None => {
                proof {
                    assert(body[i - start as int] == v@[i as int]);
                    assert(hex_digit_val(body[i - start as int]) < 0);
                    assert(!all_hex(body));
                }
                return None;
            },
        };
        proof {
            assert(body.take(i - start as int + 1).drop_last() =~= body.take(i - start as int));
            assert(body.take(i - start as int + 1).last() == v@[i as int]);
        }
        acc = acc * 16 + d;
        i = i + 1;
    }
    proof {
        assert(body.take(body.len() as int) =~= body);
    }
    Some(acc)
}

/// `Some(o)` becomes `Some(a + o)`; `None` stays `None`.
pub open spec fn opt_prepend(a: Seq<char>, o: Option<Seq<char>>) -> Option<Seq<char>> {
    match o {
        Option::Some(r) => Some(a + r),
        Option::None => None,
    }
}

/// The decoded JSON string whose opening quote has just been passed at
/// position `i` of `s`: characters up to the closing quote, with the
/// escapes `\n` `\r` `\t` `\\` `\"` and `\uXXXX` resolved, any other
/// escaped character kept as itself, and an invalid or non-scalar `\u`
/// escape dropped. `None` when the text ends before a closing quote.
pub open spec fn spec_decode_string(s: Seq<char>, i: int) -> Option<Seq<char>>
    decreases s.len() - i
        when 0 <= i <= s.len()
{
    if i >= s.len() {
        None
    } else if s[i] == '"' {
        Some(Seq::empty())
    } else if s[i] != '\\' {
        opt_prepend(seq![s[i]], spec_decode_string(s, i + 1))
    } else if i + 1 >= s.len() {
        None
    } else {
        let e = s[i + 1];
        if e == 'u' {
            let hstart = i + 2;
            let hend = if hstart + 4 <= s.len() {
                hstart + 4
            } else {
                s.len() as int
            };
            let hex = s.subrange(hstart, hend);
            let rest = spec_decode_string(s, hend);
            match spec_parse_hex(hex) {
                Option::Some(code) => {
                    if is_scalar(code as int) {
                        opt_prepend(seq![code as char], rest)
                    } else {
                        opt_prepend(Seq::empty(), rest)
                    }
                },
                Option::None => opt_prepend(Seq::empty(), rest),
            }
        } else {
            let c = if e == 'n' {
                '\n'
            } else if e == 'r' {
                '\r'
            } else if e == 't' {
                '\t'
            } else {
                e
            };
            opt_prepend(seq![c], spec_decode_string(s, i + 2))
        }
    }
}

proof fn lemma_opt_prepend_assoc(a: Seq<char>, b: Seq<char>, o: Option<Seq<char>>)
    ensures
        opt_prepend(a, opt_prepend(b, o)) == opt_prepend(a + b, o),
{
    match o {
        Option::Some(r) => {
            assert(a + (b + r) =~= (a + b) + r);
        },
        Option::None => {},
    }
}

fn decode_string_at(v: &Vec<char>, start: usize) -> (r: Option<Vec<char>>)
    requires
        start <= v@.len(),
    ensures
        match r {
            Some(out) => spec_decode_string(v@, start as int) == Some(out@),
            None => spec_decode_string(v@, start as int) is None,
        },
{
    let n = v.len();
    let mut acc: Vec<char> = Vec::new();
    let mut i = start;
    loop
        invariant
            start <= i <= n == v@.len(),
            opt_prepend(acc@, spec_decode_string(v@, i as int)) == spec_decode_string(
                v@,
                start as int,
            ),
        decreases n - i,
    {
        if i >= n {
            return None;
        }
        let c = v[i];
        if c == '"' {
            proof {
                assert(acc@ + Seq::<char>::empty() =~= acc@);
            }
            return Some(acc);
        }
        if c != '\\' {
            proof {
                lemma_opt_prepend_assoc(acc@, seq![c], spec_decode_string(v@, i + 1));
                assert(acc@ + seq![c] =~= acc@.push(c));
            }
            acc.push(c);
            i = i + 1;
            continue;
        }
        if i + 1 >= n {
            return None;
        }
        let e = v[i + 1];
        if e == 'u' {
            let hstart = i + 2;
            let hend = if hstart <= n && n - hstart >= 4 {
                hstart + 4
            } else {
                n
            };
            let hex = subrange_chars(v, hstart, hend);
            match parse_hex_chars(&hex) {
                Some(code) => {
                    match char_from_u32(code) {
                        Some(ch) => {
                            proof {
                                lemma_opt_prepend_assoc(
                                    acc@,
                                    seq![ch],
                                    spec_decode_string(v@, hend as int),
                                );
                                assert(acc@ + seq![ch] =~= acc@.push(ch));
                            }
                            acc.push(ch);
                        },
                        None => {
                            proof {
                                lemma_opt_prepend_assoc(
                                    acc@,
                                    Seq::<char>::empty(),
                                    spec_decode_string(v@, hend as int),
                                );
                                assert(acc@ + Seq::<char>::empty() =~= acc@);
                            }
                        },
                    }
                },
                None => {
                    proof {
                        lemma_opt_prepend_assoc(
                            acc@,
                            Seq::<char>::empty(),
                            spec_decode_string(v@, hend as int),
                        );
                        assert(acc@ + Seq::<char>::empty() =~= acc@);
                    }
                },
            }
            i = hend;
            continue;
        }
        let mapped = if e == 'n' {
            '\n'
        } else if e == 'r' {
            '\r'
        } else if e == 't' {
            '\t'
        } else {
            e
        };
        proof {
            lemma_opt_prepend_assoc(acc@, seq![mapped], spec_decode_string(v@, i + 2));
            assert(acc@ + seq![mapped] =~= acc@.push(mapped));
        }
        acc.push(mapped);
        i = i + 2;
    }
}

/// The needle the prefix scan looks for: `"key":"`.
pub open spec fn field_needle(key: Seq<char>) -> Seq<char> {
    seq!['"'] + key + seq!['"', ':', '"']
}

/// The decoded value of the first occurrence of `"key":"..."` in `s`, or
/// `None` when the needle is absent or the string never closes.
pub open spec fn spec_extract_string_field(s: Seq<char>, key: Seq<char>) -> Option<Seq<char>> {
    match find_sub_from(s, field_needle(key), 0) {
        Option::Some(k) => spec_decode_string(s, k + field_needle(key).len()),
        Option::None => None,
    }
}

/// Scans `prefix` for a top-level-looking string field `"key":"..."` and
/// decodes it (see [`spec_extract_string_field`]).
pub fn extract_json_string_field(prefix: &str, key: &str) -> (r: Option<String>)
    ensures
        match r {
            Some(s) => spec_extract_string_field(prefix@, key@) == Some(s@),
            None => spec_extract_string_field(prefix@, key@) is None,
        },
{
    let v = chars_of(prefix);
    let kv = chars_of(key);
    let mut needle: Vec<char> = Vec::new();
    needle.push('"');
    let kn = kv.len();
    let mut i: usize = 0;
    while i < kn
        invariant
            0 <= i <= kn == kv@.len(),
            needle@ == seq!['"'] + kv@.take(i as int),
        decreases kn - i,
    {
        needle.push(kv[i]);
        proof {
            assert(needle@ =~= seq!['"'] + kv@.take(i + 1 as int));
        }
        i = i + 1;
    }
    needle.push('"');
    needle.push(':');
    needle.push('"');
    proof {
        assert(kv@.take(kn as int) =~= kv@);
        assert(needle@ =~= field_needle(key@));
    }
    match find_sub_at(&v, &needle, 0) {
        Some(k) => {
            match decode_string_at(&v, k + needle.len()) {
                Some(out) => Some(string_from_chars(out.as_slice())),
                None => None,
            }
        },
        None => None,
    }
}

/// `text` cut at the first occurrence of `"base_instructions"`, so that a
/// very large instructions field cannot push the metadata fields out of the
/// scanned prefix.
pub open spec fn spec_clip_base_instructions(text: Seq<char>) -> Seq<char> {
    match find_sub_from(text, "\"base_instructions\""@, 0) {
        Option::Some(k) => text.take(k),
        Option::None => text,
    }
}

/// A metadata string field read from a rollout prefix after clipping at
/// `"base_instructions"`.
pub open spec fn spec_session_meta_field(text: Seq<char>, key: Seq<char>) -> Option<Seq<char>> {
    spec_extract_string_field(spec_clip_base_instructions(text), key)
}

/// Reads one metadata field from a rollout prefix
/// (see [`spec_session_meta_field`]).
pub fn extract_session_meta_field(text: &str, key: &str) -> (r: Option<String>)
    ensures
        match r {
            Some(s) => spec_session_meta_field(text@, key@) == Some(s@),
            None => spec_session_meta_field(text@, key@) is None,
        },
{
    let v = chars_of(text);
    let pat = chars_of("\"base_instructions\"");
    let clipped: Vec<char> = match find_sub_at(&v, &pat, 0) {
        Some(k) => {
            let c = subrange_chars(&v, 0, k);
            proof {
                assert(v@.subrange(0, k as int) =~= v@.take(k as int));
            }
            c
        },
        None => v,
    };
    let s = string_from_chars(clipped.as_slice());
    extract_json_string_field(s.as_str(), key)
}

} // verus!

verus! {

/// `a` when present, else `b`, as `Option::or` combines the prefix scan
/// with the parsed fallback.
pub open spec fn opt_or(a: Option<Seq<char>>, b: Option<Seq<char>>) -> Option<Seq<char>> {
    if a is Some {
        a
    } else {
        b
    }
}

/// The view of an optional owned string.
pub open spec fn opt_str_view(o: Option<String>) -> Option<Seq<char>> {
    match o {
        Option::Some(s) => Some(s@),
        Option::None => None,
    }
}

/// The (cwd, originator, source) triple read from the parsed first line of
/// a rollout, accepted only when that line is a `session_meta` object with
/// a `payload` field.
pub open spec fn spec_fallback_triplet(line: Option<Seq<char>>) -> Option<
    (Option<Seq<char>>, Option<Seq<char>>, Option<Seq<char>>),
> {
    match line {
        Option::None => None,
        Option::Some(l) => match json_of(l) {
            Option::None => None,
            Option::Some(v) => {
                if jv_get_str(v, "type"@) == Some("session_meta"@) {
                    match jv_get(v, "payload"@) {
                        Option::Some(p) => Some(
                            (
                                jv_get_str(p, "cwd"@),
                                jv_get_str(p, "originator"@),
                                jv_get_str(p, "source"@),
                            ),
                        ),
                        Option::None => None,
                    }
                } else {
                    None
                }
            },
        },
    }
}

/// The (cwd, originator, source) triple of a rollout: the prefix scan wins;
/// the parsed first line fills in what the scan missed, and is consulted
/// only when the scan found no originator.
pub open spec fn spec_meta_triplet(prefix: Seq<char>, line: Option<Seq<char>>) -> (
    Option<Seq<char>>,
    Option<Seq<char>>,
    Option<Seq<char>>,
) {
    let cwd = spec_session_meta_field(prefix, "cwd"@);
    let orig = spec_session_meta_field(prefix, "originator"@);
    let src = spec_session_meta_field(prefix, "source"@);
    if orig is Some {
        (cwd, orig, src)
    } else {
        match spec_fallback_triplet(line) {
            Option::Some(t) => (opt_or(cwd, t.0), opt_or(orig, t.1), opt_or(src, t.2)),
            Option::None => (cwd, orig, src),
        }
    }
}

/// Derives the metadata triple of a rollout from its scanned prefix and,
/// when needed, its first line (see [`spec_meta_triplet`]).
pub fn extract_session_meta_triplet(prefix: &str, first_line: Option<&str>) -> (r: (
    Option<String>,
    Option<String>,
    Option<String>,
))
    ensures
        ({
            let s = spec_meta_triplet(
                prefix@,
                match first_line {
                    Some(l) => Some(l@),
                    None => None,
                },
            );
            opt_str_view(r.0) == s.0 && opt_str_view(r.1) == s.1 && opt_str_view(r.2) == s.2
        }),
{
    let cwd = extract_session_meta_field(prefix, "cwd");
    let orig = extract_session_meta_field(prefix, "originator");
    let src = extract_session_meta_field(prefix, "source");
    if orig.is_some() {
        return (cwd, orig, src);
    }
    let parsed: Option<Json> = match first_line {
        Some(l) => parse_json(l),
        None => None,
    };
    match parsed {
        None => (cwd, orig, src),
        Some(v) => {
            let is_meta = crate::text::opt_string_is(v.get_str("type"), "session_meta");
            if !is_meta {
                return (cwd, orig, src);
            }
            match v.get("payload") {
                None => (cwd, orig, src),
                Some(p) => {
                    let cwd2 = match p.get_str("cwd") {
                        Some(s) => Some(s.clone()),
                        None => None,
                    };
                    let orig2 = match p.get_str("originator") {
                        Some(s) => Some(s.clone()),
                        None => None,
                    };
                    let src2 = match p.get_str("source") {
                        Some(s) => Some(s.clone()),
                        None => None,
                    };
                    let c = if cwd.is_some() {
                        cwd
                    } else {
                        cwd2
                    };
                    let o = if orig.is_some() {
                        orig
                    } else {
                        orig2
                    };
                    let s = if src.is_some() {
                        src
                    } else {
                        src2
                    };
                    (c, o, s)
                },
            }
        },
    }
}

/// The concatenated text of the `input_text` and `output_text` entries of a
/// rollout `content` array, from position `i` on.
pub open spec fn spec_content_text_from(items: Seq<JsonView>, i: int) -> Seq<char>
    decreases items.len() - i,
{
    if i < 0 || i >= items.len() {
        Seq::empty()
    } else {
        let ty = jv_get_str(items[i], "type"@);
        let piece: Seq<char> = if ty == Some("input_text"@) || ty == Some("output_text"@) {
            match jv_get_str(items[i], "text"@) {
                Option::Some(t) => t,
                Option::None => Seq::empty(),
            }
        } else {
            Seq::empty()
        };
        piece + spec_content_text_from(items, i + 1)
    }
}

/// The user text of a rollout `content` value: empty unless it is an array.
pub open spec fn spec_content_text(v: JsonView) -> Seq<char> {
    match v {
        JsonView::Arr(items) => spec_content_text_from(items, 0),
        _ => Seq::empty(),
    }
}

/// Concatenates the text entries of a rollout `content` array
/// (see [`spec_content_text`]).
pub fn extract_rollout_content_text(content: &Json) -> (r: String)
    ensures
        r@ == spec_content_text(content.deep()),
{
    match content {
        Json::Arr(items) => {
            let ghost dv = content.deep()->Arr_0;
            let n = items.len();
            let mut acc = String::new();
            let mut i: usize = 0;
            while i < n
                invariant
                    0 <= i <= n == items@.len(),
                    *content == Json::Arr(*items),
                    dv == content.deep()->Arr_0,
                    dv.len() == n,
                    forall|j: int| 0 <= j < n ==> #[trigger] dv[j] == items@[j].deep(),
                    acc@ + spec_content_text_from(dv, i as int) == spec_content_text_from(dv, 0),
                decreases n - i,
            {
                let item = &items[i];
                let ty = item.get_str("type");
                let wanted = crate::text::opt_string_is(ty, "input_text")
                    || crate::text::opt_string_is(ty, "output_text");
                let ghost before = acc@;
                let ghost piece: Seq<char> = if jv_get_str(dv[i as int], "type"@) == Some(
                    "input_text"@,
                ) || jv_get_str(dv[i as int], "type"@) == Some("output_text"@) {
                    match jv_get_str(dv[i as int], "text"@) {
                        Option::Some(t) => t,
                        Option::None => Seq::<char>::empty(),
                    }
                } else {
                    Seq::<char>::empty()
                };
                if wanted {
                    match item.get_str("text") {
                        Some(t) => {
                            acc.append(t.as_str());
                        },
                        None => {},
                    }
                }
                proof {
                    assert(acc@ =~= before + piece);
                    assert((before + piece) + spec_content_text_from(dv, i + 1) =~= before + (piece
                        + spec_content_text_from(dv, i + 1)));
                }
                i = i + 1;
            }
            acc
        },
        _ => String::new(),
    }
}

/// Whether the metadata of a rollout marks it as a one-shot `exec`
/// invocation of the agent: such rollouts are hidden from every listing.
pub open spec fn spec_exec_rollout(originator: Option<Seq<char>>, source: Option<Seq<char>>) -> bool {
    source == Some("exec"@) || originator == Some("codex_exec"@)
}

/// Decides whether a rollout is a hidden `exec` invocation
/// (see [`spec_exec_rollout`]).
pub fn rollout_is_exec(originator: Option<&String>, source: Option<&String>) -> (r: bool)
    ensures
        r == spec_exec_rollout(
            match originator {
                Some(s) => Some(s@),
                None => None,
            },
            match source {
                Some(s) => Some(s@),
                None => None,
            },
        ),
{
    crate::text::opt_string_is(source, "exec") || crate::text::opt_string_is(
        originator,
        "codex_exec",
    )
}

} // verus!

verus! {

/// The most recent shown user prompt among `lines[0..=i]`, walking
/// backwards: blank lines are skipped, a line that does not parse as JSON
/// aborts the whole search, `event_msg`/`user_message` lines offer their
/// `message`, and `response_item` user messages offer their concatenated
/// `content` text — a user message missing its `content` aborts too. The
/// first candidate that passes [`crate::text::spec_should_show`] wins,
/// trimmed.
pub open spec fn spec_last_prompt_from(lines: Seq<Seq<char>>, i: int) -> Option<Seq<char>>
    decreases i + 1,
{
    if i < 0 || i >= lines.len() {
        None
    } else {
        let t = spec_trim(lines[i]);
        if t.len() == 0 {
            spec_last_prompt_from(lines, i - 1)
        } else {
            match json_of(t) {
                Option::None => None,
                Option::Some(v) => {
                    let kind = jv_get_str(v, "type"@);
                    if kind == Some("event_msg"@) {
                        match jv_get(v, "payload"@) {
                            Option::Some(p) => {
                                if jv_get_str(p, "type"@) == Some("user_message"@) {
                                    match jv_get_str(p, "message"@) {
                                        Option::Some(msg) => {
                                            if crate::text::spec_should_show(msg) {
                                                Some(spec_trim(msg))
                                            } else {
                                                spec_last_prompt_from(lines, i - 1)
                                            }
                                        },
                                        Option::None => spec_last_prompt_from(lines, i - 1),
                                    }
                                } else {
                                    spec_last_prompt_from(lines, i - 1)
                                }
                            },
                            Option::None => spec_last_prompt_from(lines, i - 1),
                        }
                    } else if kind == Some("response_item"@) {
                        match jv_get(v, "payload"@) {
                            Option::Some(p) => {
                                if jv_get_str(p, "type"@) == Some("message"@) && jv_get_str(
                                    p,
                                    "role"@,
                                ) == Some("user"@) {
                                    match jv_get(p, "content"@) {
                                        Option::Some(content) => {
                                            let text = spec_content_text(content);
                                            if crate::text::spec_should_show(text) {
                                                Some(spec_trim(text))
                                            } else {
                                                spec_last_prompt_from(lines, i - 1)
                                            }
                                        },
                                        Option::None => None,
                                    }
                                } else {
                                    spec_last_prompt_from(lines, i - 1)
                                }
                            },
                            Option::None => spec_last_prompt_from(lines, i - 1),
                        }
                    } else if kind is Some {
                        spec_last_prompt_from(lines, i - 1)
                    } else {
                        spec_last_prompt_from(lines, i - 1)
                    }
                },
            }
        }
    }
}

/// The most recent shown user prompt in a rollout tail.
pub open spec fn spec_last_prompt(lines: Seq<Seq<char>>) -> Option<Seq<char>> {
    spec_last_prompt_from(lines, lines.len() - 1)
}

fn trim_to_string(s: &str) -> (r: String)
    ensures
        r@ == spec_trim(s@),
{
    let v = chars_of(s);
    let t = trim_chars(&v);
    string_from_chars(t.as_slice())
}

/// Finds the most recent shown user prompt among the tail lines of a
/// rollout (see [`spec_last_prompt`]).
pub fn find_last_prompt_in_lines(lines: &Vec<String>) -> (r: Option<String>)
    ensures
        ({
            let views = lines@.map_values(|s: String| s@);
            match r {
                Some(out) => spec_last_prompt(views) == Some(out@),
                None => spec_last_prompt(views) is None,
            }
        }),
{
    let ghost views = lines@.map_values(|s: String| s@);
    let n = lines.len();
    let mut i = n;
    while i > 0
        invariant
            0 <= i <= n == lines@.len(),
            views == lines@.map_values(|s: String| s@),
            views.len() == n,
            spec_last_prompt(views) == spec_last_prompt_from(views, i - 1),
        decreases i,
    {
        let idx = i - 1;
        proof {
            assert(views[idx as int] == lines@[idx as int]@);
        }
        let t = trim_to_string(lines[idx].as_str());
        if t.as_str().is_empty() {
            proof {
                assert(t@.len() == 0);
            }
            i = idx;
            continue;
        }
        match parse_json(t.as_str()) {
            None => {
                return None;
            },
            Some(v) => {
                let kind = v.get_str("type");
                if crate::text::opt_string_is(kind, "event_msg") {
                    match v.get("payload") {
                        Some(p) => {
                            if crate::text::opt_string_is(p.get_str("type"), "user_message") {
                                match p.get_str("message") {
                                    Some(msg) => {
                                        if crate::text::should_show_rollout_user_text(
                                            msg.as_str(),
                                        ) {
                                            return Some(trim_to_string(msg.as_str()));
                                        }
                                    },
                                    None => {},
                                }
                            }
                        },
                        None => {},
                    }
                } else if crate::text::opt_string_is(kind, "response_item") {
                    match v.get("payload") {
                        Some(p) => {
                            if crate::text::opt_string_is(p.get_str("type"), "message")
                                && crate::text::opt_string_is(p.get_str("role"), "user") {
                                match p.get("content") {
                                    Some(content) => {
                                        let text = extract_rollout_content_text(content);
                                        if crate::text::should_show_rollout_user_text(
                                            text.as_str(),
                                        ) {
                                            return Some(trim_to_string(text.as_str()));
                                        }
                                    },
                                    None => {
                                        return None;
                                    },
                                }
                            }
                        },
                        None => {},
                    }
                }
                i = idx;
            },
        }
    }
    None
}

} // verus!
