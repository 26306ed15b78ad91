//! Skill discovery: YAML front matter of `SKILL.md` files, and the
//! deduplicated, name-sorted skill listing.

use vstd::prelude::*;
use crate::text::{
    spec_trim, spec_lines, find_char_from, trim_chars, chars_of, string_from_chars, find_char_at,
    subrange_chars, str_eq, split_lines,
};

verus! {

broadcast use {vstd::seq_lib::group_to_multiset_ensures, vstd::multiset::group_multiset_axioms};

/// An unquoted double-quoted YAML scalar, from position `i` of the inner
/// text: the escapes `\n` `\r` `\t` `\\` `\"` are resolved, any other
/// escaped character is kept as itself, and a trailing lone backslash is
/// dropped.
pub open spec fn spec_unquote_dq(s: Seq<char>, i: int) -> Seq<char>
    decreases s.len() - i,
{
    if i < 0 || i >= s.len() {
        Seq::empty()
    } else if s[i] != '\\' {
        seq![s[i]] + spec_unquote_dq(s, i + 1)
    } else if i + 1 >= s.len() {
        Seq::empty()
    } else {
        let e = s[i + 1];
        let c = if e == 'n' {
            '\n'
        } else if e == 'r' {
            '\r'
        } else if e == 't' {
            '\t'
        } else {
            e
        };
        seq![c] + spec_unquote_dq(s, i + 2)
    }
}

/// A YAML scalar as the skill parser reads it: trimmed; a double-quoted
/// scalar is unescaped and trimmed again; a single-quoted scalar keeps its
/// inside, trimmed; anything else stands as trimmed.
pub open spec fn spec_unquote_yaml(raw: Seq<char>) -> Seq<char> {
    let t = spec_trim(raw);
    if t.len() == 0 {
        Seq::empty()
    } else if t.len() >= 2 && t[0] == '"' && t.last() == '"' {
        spec_trim(spec_unquote_dq(t.subrange(1, t.len() - 1), 0))
    } else if t.len() >= 2 && t[0] == '\'' && t.last() == '\'' {
        spec_trim(t.subrange(1, t.len() - 1))
    } else {
        t
    }
}

/// Unquotes one YAML scalar (see [`spec_unquote_yaml`]).
pub fn unquote_yaml_scalar(raw: &str) -> (r: String)
    ensures
        r@ == spec_unquote_yaml(raw@),
{
    let rv = chars_of(raw);
    let t = trim_chars(&rv);
    let n = t.len();
    if n == 0 {
        return String::new();
    }
    if n >= 2 && t[0] == '"' && t[n - 1] == '"' {
        let inner = subrange_chars(&t, 1, n - 1);
        proof {
            assert(t@[n - 1] == t@.last());
        }
        let mut out: Vec<char> = Vec::new();
        let m = inner.len();
        let mut i: usize = 0;
        while i < m
            invariant
                0 <= i <= m == inner@.len(),
                out@ + spec_unquote_dq(inner@, i as int) == spec_unquote_dq(inner@, 0),
            ensures
                out@ == spec_unquote_dq(inner@, 0),
            decreases m - i,
        {
            let c = inner[i];
            if c != '\\' {
                proof {
                    assert(out@.push(c) + spec_unquote_dq(inner@, i + 1) =~= out@ + (seq![c]
                        + spec_unquote_dq(inner@, i + 1)));
                }
                out.push(c);
                i = i + 1;
            } else if i + 1 >= m {
                proof {
                    assert(out@ + spec_unquote_dq(inner@, i as int) =~= out@);
                }
                i = m;
            } else {
                let e = inner[i + 1];
                let mapped = if e == 'n' {
                    '\n'
                } else if e == 'r' {
                    '\r'
                } else if e == 't' {
                    '\t'
                } else {
                    e
                };
                proof {
                    assert(out@.push(mapped) + spec_unquote_dq(inner@, i + 2) =~= out@ + (
                    seq![mapped] + spec_unquote_dq(inner@, i + 2)));
                }
                out.push(mapped);
                i = i + 2;
            }
        }
        let trimmed = trim_chars(&out);
        return string_from_chars(trimmed.as_slice());
    }
    if n >= 2 && t[0] == '\'' && t[n - 1] == '\'' {
        let inner = subrange_chars(&t, 1, n - 1);
        proof {
            assert(t@[n - 1] == t@.last());
        }
        let trimmed = trim_chars(&inner);
        return string_from_chars(trimmed.as_slice());
    }
    string_from_chars(t.as_slice())
}

/// The (name, description) scan over front-matter lines from line `i`,
/// with the values found so far: a `---` line ends the scan, blank and
/// `#` lines are skipped, and a `key: value` line with key `name` or
/// `description` stores its unquoted non-empty value.
pub open spec fn spec_fm_scan(
    lines: Seq<Seq<char>>,
    i: int,
    name: Option<Seq<char>>,
    desc: Option<Seq<char>>,
) -> (Option<Seq<char>>, Option<Seq<char>>)
    decreases lines.len() - i,
{
    if i < 0 || i >= lines.len() {
        (name, desc)
    } else {
        let t = spec_trim(lines[i]);
        if t == "---"@ {
            (name, desc)
        } else if t.len() == 0 || t[0] == '#' {
            spec_fm_scan(lines, i + 1, name, desc)
        } else {
            match find_char_from(t, ':', 0) {
                Option::None => spec_fm_scan(lines, i + 1, name, desc),
                Option::Some(c) => {
                    let k = spec_trim(t.take(c));
                    let val = spec_unquote_yaml(t.skip(c + 1));
                    if k == "name"@ && val.len() > 0 {
                        spec_fm_scan(lines, i + 1, Some(val), desc)
                    } else if k == "description"@ && val.len() > 0 {
                        spec_fm_scan(lines, i + 1, name, Some(val))
                    } else {
                        spec_fm_scan(lines, i + 1, name, desc)
                    }
                },
            }
        }
    }
}

/// The front matter of a `SKILL.md`: nothing unless the first line is
/// `---`; then the name and description scanned up to the closing `---`.
pub open spec fn spec_front_matter(lines: Seq<Seq<char>>) -> (Option<Seq<char>>, Option<Seq<char>>) {
    if lines.len() == 0 || spec_trim(lines[0]) != "---"@ {
        (None::<Seq<char>>, None::<Seq<char>>)
    } else {
        spec_fm_scan(lines, 1, None, None)
    }
}

/// The view of an optional-string pair.
pub open spec fn opt_pair_view(r: (Option<String>, Option<String>)) -> (
    Option<Seq<char>>,
    Option<Seq<char>>,
) {
    (crate::rollout::opt_str_view(r.0), crate::rollout::opt_str_view(r.1))
}

/// Reads the name and description out of a skill file's front matter
/// (see [`spec_front_matter`]).
pub fn parse_skill_front_matter(text: &str) -> (r: (Option<String>, Option<String>))
    ensures
        opt_pair_view(r) == spec_front_matter(spec_lines(text@)),
{
    let lines = split_lines(text);
    let ghost views = lines@.map_values(|l: String| l@);
    let n = lines.len();
    if n == 0 {
        return (None, None);
    }
    let first = trim_to_string(lines[0].as_str());
    if !str_eq(first.as_str(), "---") {
        return (None, None);
    }
    let mut name: Option<String> = None;
    let mut desc: Option<String> = None;
    let mut i: usize = 1;
    while i < n
        invariant
            1 <= i <= n == views.len(),
            views == lines@.map_values(|l: String| l@),
            spec_front_matter(views) == spec_fm_scan(
                views,
                i as int,
                crate::rollout::opt_str_view(name),
                crate::rollout::opt_str_view(desc),
            ),
        ensures
            opt_pair_view((name, desc)) == spec_front_matter(views),
        decreases n - i,
    {
        proof {
            assert(views[i as int] == lines@[i as int]@);
        }
        let tv = chars_of(lines[i].as_str());
        let t = trim_chars(&tv);
        let ts = string_from_chars(t.as_slice());
        if str_eq(ts.as_str(), "---") {
            break ;
        }
        if t.len() == 0 || t[0] == '#' {
            i = i + 1;
            continue ;
        }
        match find_char_at(&t, ':', 0) {
            None => {
                i = i + 1;
            },
            Some(c) => {
                let key_part = subrange_chars(&t, 0, c);
                proof {
                    assert(t@.subrange(0, c as int) =~= t@.take(c as int));
                }
                let key_trimmed = trim_chars(&key_part);
                let key = string_from_chars(key_trimmed.as_slice());
                let tn = t.len();
                let val_part = subrange_chars(&t, c + 1, tn);
                proof {
                    assert(t@.subrange(c + 1, tn as int) =~= t@.skip(c + 1));
                }
                let val_str = string_from_chars(val_part.as_slice());
                let val = unquote_yaml_scalar(val_str.as_str());
                let val_empty = val.as_str().is_empty();
                proof {
                    assert(val_empty == (val@.len() == 0));
                }
                if str_eq(key.as_str(), "name") && !val_empty {
                    name = Some(val);
                } else if str_eq(key.as_str(), "description") && !val_empty {
                    desc = Some(val);
                }
                i = i + 1;
            },
        }
    }
    (name, desc)
}

fn trim_to_string(s: &str) -> (r: String)
    ensures
        r@ == spec_trim(s@),
{
    let v = chars_of(s);
    let t = trim_chars(&v);
    string_from_chars(t.as_slice())
}

/// One discovered skill.
pub struct SkillSummary {
    pub name: String,
    pub description: String,
    pub path: String,
}

/// The ASCII-lowercased form of `s`, the sort key of the skill listing.
pub open spec fn spec_ascii_lower(s: Seq<char>) -> Seq<char> {
    s.map_values(
        |c: char|
            if 'A' <= c && c <= 'Z' {
                ((c as u8) + 32) as char
            } else {
                c
            },
    )
}

/// Lowercases ASCII letters (see [`spec_ascii_lower`]).
pub fn ascii_lower(s: &str) -> (r: String)
    ensures
        r@ == spec_ascii_lower(s@),
{
    let v = chars_of(s);
    let n = v.len();
    let mut out: Vec<char> = Vec::new();
    let mut i: usize = 0;
    while i < n
        invariant
            0 <= i <= n == v@.len(),
            out@ == spec_ascii_lower(v@).take(i as int),
        decreases n - i,
    {
        let c = v[i];
        let mapped: char = if 'A' <= c && c <= 'Z' {
            ((c as u8) + 32) as char
        } else {
            c
        };
        out.push(mapped);
        proof {
            assert(out@ =~= spec_ascii_lower(v@).take(i + 1 as int));
        }
        i = i + 1;
    }
    proof {
        assert(out@ =~= spec_ascii_lower(v@));
    }
    string_from_chars(out.as_slice())
}

/// Whether some earlier skill already claimed this name.
pub open spec fn name_taken(s: Seq<SkillSummary>, name: Seq<char>) -> bool {
    exists|i: int| 0 <= i < s.len() && (#[trigger] s[i].name)@ == name
}

/// Whether `s` holds a skill with exactly the content of `x`.
pub open spec fn skill_in(s: Seq<SkillSummary>, x: SkillSummary) -> bool {
    exists|j: int|
        0 <= j < s.len() && (#[trigger] s[j]).name@ == x.name@ && s[j].description@
            == x.description@ && s[j].path@ == x.path@
}

/// Whether an earlier element of `s` already carries the name of `s[i]`.
pub open spec fn name_in_prefix(s: Seq<SkillSummary>, i: int) -> bool {
    exists|j: int| 0 <= j < i && (#[trigger] s[j]).name@ == s[i].name@
}

/// The first-occurrence deduplication of `s` by exact name: an element
/// stays exactly when no earlier element carries its name, in input order.
pub open spec fn spec_dedup_first(s: Seq<SkillSummary>) -> Seq<SkillSummary>
    decreases s.len(),
{
    if s.len() == 0 {
        Seq::empty()
    } else {
        let head = spec_dedup_first(s.drop_last());
        if name_in_prefix(s, s.len() - 1) {
            head
        } else {
            head.push(s.last())
        }
    }
}

proof fn lemma_dedup_first_names(s: Seq<SkillSummary>)
    ensures
        forall|nm: Seq<char>| name_taken(spec_dedup_first(s), nm) <==> name_taken(s, nm),
    decreases s.len(),
{
    if s.len() > 0 {
        let head = s.drop_last();
        let dh = spec_dedup_first(head);
        let d = spec_dedup_first(s);
        lemma_dedup_first_names(head);
        assert forall|nm: Seq<char>| name_taken(d, nm) implies name_taken(s, nm) by {
            let j = choose|j: int| 0 <= j < d.len() && (#[trigger] d[j].name)@ == nm;
            if name_in_prefix(s, s.len() - 1) || j < d.len() - 1 || d == dh.push(s.last()) && j
                < dh.len() {
                if j < dh.len() {
                    assert((dh[j].name)@ == nm);
                    assert(name_taken(dh, nm));
                    assert(name_taken(head, nm));
                    let k = choose|k: int| 0 <= k < head.len() && (#[trigger] head[k].name)@ == nm;
                    assert((s[k].name)@ == nm);
                } else {
                    assert((s[s.len() - 1].name)@ == nm);
                }
            } else {
                assert((s[s.len() - 1].name)@ == nm);
            }
        }
        assert forall|nm: Seq<char>| name_taken(s, nm) implies name_taken(d, nm) by {
            let j = choose|j: int| 0 <= j < s.len() && (#[trigger] s[j].name)@ == nm;
            if j < s.len() - 1 {
                assert((head[j].name)@ == nm);
                assert(name_taken(head, nm));
                assert(name_taken(dh, nm));
                let k = choose|k: int| 0 <= k < dh.len() && (#[trigger] dh[k].name)@ == nm;
                if name_in_prefix(s, s.len() - 1) {
                    assert((d[k].name)@ == nm);
                } else {
                    assert(d == dh.push(s.last()));
                    assert((d[k].name)@ == nm);
                }
            } else {
                if name_in_prefix(s, s.len() - 1) {
                    let p = choose|p: int|
                        0 <= p < s.len() - 1 && (#[trigger] s[p]).name@ == s[s.len() - 1].name@;
                    assert((head[p].name)@ == nm);
                    assert(name_taken(head, nm));
                    assert(name_taken(dh, nm));
                    let k = choose|k: int| 0 <= k < dh.len() && (#[trigger] dh[k].name)@ == nm;
                    assert((d[k].name)@ == nm);
                } else {
                    assert(d == dh.push(s.last()));
                    assert((d[d.len() - 1].name)@ == nm);
                }
            }
        }
    }
}

/// Deduplicates skills by exact name: the result is exactly the first
/// occurrence of each name, in input order.
pub fn dedup_skills(v: Vec<SkillSummary>) -> (r: Vec<SkillSummary>)
    ensures
        r@ == spec_dedup_first(v@),
        forall|i: int, j: int|
            0 <= i < j < r@.len() ==> (#[trigger] r@[i].name)@ != (#[trigger] r@[j].name)@,
        forall|i: int| 0 <= i < r@.len() ==> skill_in(v@, #[trigger] r@[i]),
        forall|j: int| 0 <= j < v@.len() ==> name_taken(r@, (#[trigger] v@[j].name)@),
{
    let mut out: Vec<SkillSummary> = Vec::new();
    let n = v.len();
    let mut i: usize = 0;
    while i < n
        invariant
            0 <= i <= n == v@.len(),
            out@ == spec_dedup_first(v@.take(i as int)),
            forall|a: int, b: int|
                0 <= a < b < out@.len() ==> (#[trigger] out@[a].name)@ != (
                #[trigger] out@[b].name)@,
            forall|a: int| 0 <= a < out@.len() ==> skill_in(v@, #[trigger] out@[a]),
            forall|j: int| 0 <= j < i ==> name_taken(out@, (#[trigger] v@[j].name)@),
        decreases n - i,
    {
        let mut seen = false;
        let mut k: usize = 0;
        while k < i
            invariant
                0 <= k <= i < v@.len(),
                seen ==> name_in_prefix(v@, i as int),
                !seen ==> forall|a: int| 0 <= a < k ==> (#[trigger] v@[a].name)@ != v@[
                    i as int
                ].name@,
            decreases i - k,
        {
            if str_eq(v[k].name.as_str(), v[i].name.as_str()) {
                seen = true;
                proof {
                    assert((v@[k as int].name)@ == v@[i as int].name@);
                }
            }
            k = k + 1;
        }
        proof {
            assert(v@.take(i + 1).drop_last() =~= v@.take(i as int));
            assert(v@.take(i + 1)[i as int] == v@[i as int]);
            assert forall|j: int|
                0 <= j < i implies #[trigger] v@.take(i + 1)[j] == v@[j] by {}
            assert(name_in_prefix(v@.take(i + 1), i as int) == name_in_prefix(v@, i as int)) by {
                if name_in_prefix(v@.take(i + 1), i as int) {
                    let j = choose|j: int|
                        0 <= j < i && (#[trigger] v@.take(i + 1)[j]).name@ == v@.take(i + 1)[
                            i as int
                        ].name@;
                    assert(v@[j].name@ == v@[i as int].name@);
                }
                if name_in_prefix(v@, i as int) {
                    let j = choose|j: int|
                        0 <= j < i && (#[trigger] v@[j]).name@ == v@[i as int].name@;
                    assert(v@.take(i + 1)[j].name@ == v@.take(i + 1)[i as int].name@);
                }
            }
        }
        if !seen {
            let item = &v[i];
            let ghost before = out@;
            let ghost w: int = out@.len() as int;
            proof {
                lemma_dedup_first_names(v@.take(i as int));
                if name_taken(before, v@[i as int].name@) {
                    assert(name_taken(v@.take(i as int), v@[i as int].name@));
                    let j = choose|j: int|
                        0 <= j < v@.take(i as int).len() && (#[trigger] v@.take(i as int)[
                            j
                        ]).name@ == v@[i as int].name@;
                    assert(v@[j].name@ == v@[i as int].name@);
                    assert(false);
                }
            }
            out.push(
                SkillSummary {
                    name: item.name.clone(),
                    description: item.description.clone(),
                    path: item.path.clone(),
                },
            );
            proof {
                assert(out@[w] == v@[i as int]);
                assert(out@ =~= before.push(v@.take(i + 1).last()));
                assert((out@[w].name)@ == v@[i as int].name@);
                assert forall|j: int| 0 <= j < i + 1 implies name_taken(
                    out@,
                    (#[trigger] v@[j].name)@,
                ) by {
                    if j < i {
                        let a = choose|a: int|
                            0 <= a < before.len() && (#[trigger] before[a].name)@ == v@[j].name@;
                        assert((out@[a].name)@ == v@[j].name@);
                    } else {
                        assert((out@[w].name)@ == v@[j].name@);
                    }
                }
            }
        } else {
            proof {
                assert(out@ =~= spec_dedup_first(v@.take(i + 1)));
                assert forall|j: int| 0 <= j < i + 1 implies name_taken(
                    out@,
                    (#[trigger] v@[j].name)@,
                ) by {
                    if j == i {
                        let k2 = choose|k2: int|
                            0 <= k2 < i && (#[trigger] v@[k2]).name@ == v@[i as int].name@;
                        let a = choose|a: int|
                            0 <= a < out@.len() && (#[trigger] out@[a].name)@ == v@[k2].name@;
                        assert((out@[a].name)@ == v@[j].name@);
                    }
                }
            }
        }
        i = i + 1;
    }
    proof {
        assert(v@.take(n as int) =~= v@);
    }
    out
}

} // verus!
