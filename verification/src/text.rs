//! Character-level text helpers shared by the parsing and formatting logic.
//!
//! Executable code works on `Vec<char>`; contracts are stated over the
//! corresponding `Seq<char>` views.

use vstd::prelude::*;
use vstd::std_specs::iter::IteratorSpec;

verus! {

broadcast use vstd::string::group_string_axioms;

/// The Unicode `White_Space` characters, the set `char::is_whitespace` tests.
pub open spec fn is_ws(c: char) -> bool {
    c == ' ' || c == '\t' || c == '\n' || c == '\r' || c == '\u{b}' || c == '\u{c}'
        || c == '\u{85}' || c == '\u{a0}' || c == '\u{1680}'
        || ('\u{2000}' <= c && c <= '\u{200a}') || c == '\u{2028}' || c == '\u{2029}'
        || c == '\u{202f}' || c == '\u{205f}' || c == '\u{3000}'
}

/// Executable test for [`is_ws`].
#[verifier::when_used_as_spec(is_ws)]
pub fn is_ws_char(c: char) -> (r: bool)
    ensures
        r == is_ws(c),
{
    c == ' ' || c == '\t' || c == '\n' || c == '\r' || c == '\u{b}' || c == '\u{c}'
        || c == '\u{85}' || c == '\u{a0}' || c == '\u{1680}'
        || ('\u{2000}' <= c && c <= '\u{200a}') || c == '\u{2028}' || c == '\u{2029}'
        || c == '\u{202f}' || c == '\u{205f}' || c == '\u{3000}'
}

/// The characters of `s`, in order.
pub fn chars_of(s: &str) -> (r: Vec<char>)
    ensures
        r@ == s@,
{
    let mut out: Vec<char> = Vec::new();
    let mut it = s.chars();
    loop
        invariant
            it.obeys_prophetic_iter_laws(),
            it.decrease() is Some,
            out@ + it.remaining() == s@,
        ensures
            out@ == s@,
        decreases it.decrease().unwrap(),
    {
        match it.next() {
            Some(c) => {
                out.push(c);
                proof {
                    assert(out@ + it.remaining() =~= s@);
                }
            }
            None => {
                proof {
                    assert(it.remaining().len() == 0);
                    assert(out@ =~= s@);
                }
                break;
            }
        }
    }
    out
}

/// Relies on `String`'s `FromIterator<char>`: collects the given characters
/// in order into a string.
#[verifier::external_body]
pub fn string_from_chars(v: &[char]) -> (r: String)
    ensures
        r@ == v@,
{
    v.iter().collect()
}

/// Index of the first character at or after `i` that is not whitespace
/// (`s.len()` when there is none).
pub open spec fn first_non_ws(s: Seq<char>, i: int) -> int
    decreases s.len() - i,
{
    if i < 0 || i >= s.len() {
        i
    } else if is_ws(s[i]) {
        first_non_ws(s, i + 1)
    } else {
        i
    }
}

/// End (exclusive) of the text once trailing whitespace before `j` is dropped.
pub open spec fn ws_run_start(s: Seq<char>, j: int) -> int
    decreases j,
{
    if j <= 0 || j > s.len() {
        j
    } else if is_ws(s[j - 1]) {
        ws_run_start(s, j - 1)
    } else {
        j
    }
}

/// `s` with leading and trailing whitespace removed, as `str::trim` does.
pub open spec fn spec_trim(s: Seq<char>) -> Seq<char> {
    let a = first_non_ws(s, 0);
    let b = ws_run_start(s, s.len() as int);
    if a <= b {
        s.subrange(a, b)
    } else {
        Seq::empty()
    }
}

proof fn lemma_first_non_ws_bounds(s: Seq<char>, i: int)
    requires
        0 <= i <= s.len(),
    ensures
        i <= first_non_ws(s, i) <= s.len(),
        forall|k: int| i <= k < first_non_ws(s, i) ==> is_ws(s[k]),
        first_non_ws(s, i) < s.len() ==> !is_ws(s[first_non_ws(s, i)]),
    decreases s.len() - i,
{
    if i < s.len() && is_ws(s[i]) {
        lemma_first_non_ws_bounds(s, i + 1);
    }
}

proof fn lemma_ws_run_start_bounds(s: Seq<char>, j: int)
    requires
        0 <= j <= s.len(),
    ensures
        0 <= ws_run_start(s, j) <= j,
        forall|k: int| ws_run_start(s, j) <= k < j ==> is_ws(s[k]),
        ws_run_start(s, j) > 0 ==> !is_ws(s[ws_run_start(s, j) - 1]),
    decreases j,
{
    if j > 0 && is_ws(s[j - 1]) {
        lemma_ws_run_start_bounds(s, j - 1);
    }
}

/// Copies `v[a..b]`.
pub fn subrange_chars(v: &Vec<char>, a: usize, b: usize) -> (r: Vec<char>)
    requires
        a <= b <= v@.len(),
    ensures
        r@ == v@.subrange(a as int, b as int),
{
    let mut out: Vec<char> = Vec::new();
    let mut i = a;
    while i < b
        invariant
            a <= i <= b <= v@.len(),
            out@ == v@.subrange(a as int, i as int),
        decreases b - i,
    {
        out.push(v[i]);
        proof {
            assert(out@ =~= v@.subrange(a as int, i + 1 as int));
        }
        i = i + 1;
    }
    out
}

/// `v` with leading and trailing whitespace removed.
pub fn trim_chars(v: &Vec<char>) -> (r: Vec<char>)
    ensures
        r@ == spec_trim(v@),
{
    let n = v.len();
    let mut a: usize = 0;
    while a < n && is_ws_char(v[a])
        invariant
            0 <= a <= n == v@.len(),
            first_non_ws(v@, 0) == first_non_ws(v@, a as int),
        decreases n - a,
    {
        a = a + 1;
    }
    proof {
        assert(first_non_ws(v@, a as int) == a as int);
    }
    let mut b: usize = n;
    while b > a && is_ws_char(v[b - 1])
        invariant
            a <= b <= n == v@.len(),
            first_non_ws(v@, 0) == a,
            ws_run_start(v@, n as int) == ws_run_start(v@, b as int),
        decreases b,
    {
        b = b - 1;
    }
    proof {
        lemma_first_non_ws_bounds(v@, 0);
        lemma_ws_run_start_bounds(v@, v@.len() as int);
        if b > a {
            assert(ws_run_start(v@, b as int) == b as int);
            assert(spec_trim(v@) =~= v@.subrange(a as int, b as int));
        } else {
            lemma_ws_run_start_bounds(v@, a as int);
            if ws_run_start(v@, a as int) == a && a > 0 {
                assert(is_ws(v@[a as int - 1]));
                assert(false);
            }
            assert(v@.subrange(a as int, b as int) =~= Seq::<char>::empty());
            if a == 0 {
                assert(spec_trim(v@) =~= Seq::<char>::empty());
            } else {
                assert(ws_run_start(v@, v@.len() as int) < a);
                assert(spec_trim(v@) =~= Seq::<char>::empty());
            }
        }
    }
    subrange_chars(v, a, b)
}

/// First position at or after `i` holding character `c` (`None` when absent).
pub open spec fn find_char_from(s: Seq<char>, c: char, i: int) -> Option<int>
    decreases s.len() - i,
{
    if i < 0 || i >= s.len() {
        None
    } else if s[i] == c {
        Some(i)
    } else {
        find_char_from(s, c, i + 1)
    }
}

/// Executable search for [`find_char_from`].
pub fn find_char_at(v: &Vec<char>, c: char, start: usize) -> (r: Option<usize>)
    requires
        start <= v@.len(),
    ensures
        match r {
            Some(k) => find_char_from(v@, c, start as int) == Some(k as int) && start <= k
                < v@.len() && v@[k as int] == c,
            None => find_char_from(v@, c, start as int) is None,
        },
{
    let n = v.len();
    let mut i = start;
    while i < n
        invariant
            start <= i <= n == v@.len(),
            find_char_from(v@, c, start as int) == find_char_from(v@, c, i as int),
        decreases n - i,
    {
        if v[i] == c {
            return Some(i);
        }
        i = i + 1;
    }
    None
}

/// Whether `pat` occurs in `s` starting at position `i`.
pub open spec fn match_at(s: Seq<char>, pat: Seq<char>, i: int) -> bool {
    0 <= i && i + pat.len() <= s.len() && s.subrange(i, i + pat.len()) == pat
}

/// First position at or after `i` where `pat` occurs (`None` when absent).
pub open spec fn find_sub_from(s: Seq<char>, pat: Seq<char>, i: int) -> Option<int>
    decreases s.len() - i,
{
    if i < 0 || i + pat.len() > s.len() {
        None
    } else if match_at(s, pat, i) {
        Some(i)
    } else if i >= s.len() {
        None
    } else {
        find_sub_from(s, pat, i + 1)
    }
}

/// Whether `pat` occurs at position `i` of `v`.
pub fn match_chars_at(v: &Vec<char>, pat: &Vec<char>, i: usize) -> (r: bool)
    requires
        i + pat@.len() <= v@.len(),
    ensures
        r == match_at(v@, pat@, i as int),
{
    let n = v.len();
    let m = pat.len();
    let mut j: usize = 0;
    while j < m
        invariant
            0 <= j <= m == pat@.len(),
            n == v@.len(),
            i + m <= v@.len(),
            forall|k: int| 0 <= k < j ==> v@[i + k] == pat@[k],
        decreases m - j,
    {
        if v[i + j] != pat[j] {
            proof {
                assert(v@.subrange(i as int, i + pat@.len())[j as int] != pat@[j as int]);
            }
            return false;
        }
        j = j + 1;
    }
    proof {
        assert(v@.subrange(i as int, i + pat@.len()) =~= pat@);
    }
    true
}

/// Executable search for [`find_sub_from`].
pub fn find_sub_at(v: &Vec<char>, pat: &Vec<char>, start: usize) -> (r: Option<usize>)
    requires
        start <= v@.len(),
    ensures
        match r {
            Some(k) => find_sub_from(v@, pat@, start as int) == Some(k as int) && match_at(
                v@,
                pat@,
                k as int,
            ),
            None => find_sub_from(v@, pat@, start as int) is None,
        },
{
    let n = v.len();
    let m = pat.len();
    if m > n || start > n - m {
        proof {
            if start as int + pat@.len() <= v@.len() {
                assert(false);
            }
        }
        return None;
    }
    if m == 0 {
        proof {
            assert(v@.subrange(start as int, start as int) =~= pat@);
        }
        return Some(start);
    }
    let mut i = start;
    while i <= n - m
        invariant
            start <= i,
            i <= n - m + 1,
            1 <= m <= n,
            n == v@.len(),
            m == pat@.len(),
            find_sub_from(v@, pat@, start as int) == find_sub_from(v@, pat@, i as int),
        decreases n - i,
    {
        if match_chars_at(v, pat, i) {
            return Some(i);
        }
        i = i + 1;
    }
    None
}

/// Appends `v[a..b]` to `acc`.
pub fn append_range(acc: &mut Vec<char>, v: &Vec<char>, a: usize, b: usize)
    requires
        a <= b <= v@.len(),
    ensures
        final(acc)@ == old(acc)@ + v@.subrange(a as int, b as int),
{
    let mut i = a;
    while i < b
        invariant
            a <= i <= b <= v@.len(),
            acc@ == old(acc)@ + v@.subrange(a as int, i as int),
        decreases b - i,
    {
        acc.push(v[i]);
        proof {
            assert(acc@ =~= old(acc)@ + v@.subrange(a as int, i + 1 as int));
        }
        i = i + 1;
    }
}

/// Whether `s` begins with `pat`.
pub open spec fn has_prefix(s: Seq<char>, pat: Seq<char>) -> bool {
    pat.len() <= s.len() && s.take(pat.len() as int) == pat
}

/// Executable test for [`has_prefix`].
pub fn starts_with_chars(v: &Vec<char>, pat: &Vec<char>) -> (r: bool)
    ensures
        r == has_prefix(v@, pat@),
{
    if pat.len() > v.len() {
        return false;
    }
    let r = match_chars_at(v, pat, 0);
    proof {
        assert(v@.subrange(0, pat@.len() as int) =~= v@.take(pat@.len() as int));
    }
    r
}

} // verus!

verus! {

/// `s` with every newline replaced by a space.
pub open spec fn spec_replace_nl(s: Seq<char>) -> Seq<char> {
    s.map_values(|c: char| if c == '\n' { ' ' } else { c })
}

/// The display title derived from a prompt: the trimmed prompt with newlines
/// collapsed to spaces, cut to sixty characters with an ellipsis, or
/// `"New session"` when the prompt is blank.
pub open spec fn spec_safe_title(s: Seq<char>) -> Seq<char> {
    let t = spec_trim(s);
    if t.len() == 0 {
        "New session"@
    } else {
        let r = spec_replace_nl(t);
        if r.len() <= 60 {
            r
        } else {
            r.take(60).push('\u{2026}')
        }
    }
}

/// Derives the session title shown for a prompt.
pub fn safe_title(prompt: &str) -> (r: String)
    ensures
        r@ == spec_safe_title(prompt@),
{
    let chars = chars_of(prompt);
    let t = trim_chars(&chars);
    let n = t.len();
    if n == 0 {
        return "New session".to_owned();
    }
    let cap: usize = if n <= 60 { n } else { 60 };
    let mut out: Vec<char> = Vec::new();
    let mut i: usize = 0;
    while i < cap
        invariant
            0 <= i <= cap <= n == t@.len(),
            cap == (if n <= 60 { n as int } else { 60 }),
            out@ == spec_replace_nl(t@).take(i as int),
        decreases cap - i,
    {
        let c = t[i];
        out.push(if c == '\n' { ' ' } else { c });
        proof {
            assert(out@ =~= spec_replace_nl(t@).take(i + 1 as int));
        }
        i = i + 1;
    }
    if n > 60 {
        out.push('\u{2026}');
    }
    proof {
        if n <= 60 {
            assert(out@ =~= spec_replace_nl(t@));
        }
    }
    string_from_chars(out.as_slice())
}

/// Whether a user message recovered from a rollout should be offered as a
/// title: it must be non-blank and must not be harness-injected text.
pub open spec fn spec_should_show(text: Seq<char>) -> bool {
    let t = spec_trim(text);
    &&& t.len() > 0
    &&& !has_prefix(t, "# AGENTS.md"@)
    &&& !has_prefix(t, "<environment_context"@)
    &&& find_sub_from(t, "<INSTRUCTIONS>"@, 0) is None
}

/// Decides whether a rollout user message is shown (see [`spec_should_show`]).
pub fn should_show_rollout_user_text(text: &str) -> (r: bool)
    ensures
        r == spec_should_show(text@),
{
    let chars = chars_of(text);
    let t = trim_chars(&chars);
    if t.len() == 0 {
        return false;
    }
    let agents = chars_of("# AGENTS.md");
    if starts_with_chars(&t, &agents) {
        return false;
    }
    let envc = chars_of("<environment_context");
    if starts_with_chars(&t, &envc) {
        return false;
    }
    let instr = chars_of("<INSTRUCTIONS>");
    if find_sub_at(&t, &instr, 0).is_some() {
        return false;
    }
    true
}

/// End (exclusive) of `s.take(j)` once trailing spaces and tabs are dropped.
pub open spec fn sp_tab_run_start(s: Seq<char>, j: int) -> int
    decreases j,
{
    if j <= 0 || j > s.len() {
        j
    } else if s[j - 1] == ' ' || s[j - 1] == '\t' {
        sp_tab_run_start(s, j - 1)
    } else {
        j
    }
}

/// The citation-stripping fold: starting from accumulated output `acc` and
/// position `i` in `s`, copies text up to the next citation-start marker
/// (U+E200), drops spaces and tabs immediately before it, skips to just
/// after the matching citation-end marker (U+E201), and repeats. Text after
/// an unmatched start marker is dropped.
pub open spec fn spec_strip_cit_from(acc: Seq<char>, s: Seq<char>, i: int) -> Seq<char>
    decreases s.len() - i
        when 0 <= i <= s.len()
        via spec_strip_cit_from_dec
{
    match find_char_from(s, '\u{e200}', i) {
        Option::None => acc + s.skip(i),
        Option::Some(k) => {
            let grown = acc + s.subrange(i, k);
            let cut = grown.take(sp_tab_run_start(grown, grown.len() as int));
            match find_char_from(s, '\u{e201}', k + 1) {
                Option::None => cut,
                Option::Some(j) => spec_strip_cit_from(cut, s, j + 1),
            }
        },
    }
}

#[via_fn]
proof fn spec_strip_cit_from_dec(acc: Seq<char>, s: Seq<char>, i: int) {
    match find_char_from(s, '\u{e200}', i) {
        Option::None => {},
        Option::Some(k) => {
            lemma_find_char_from_props(s, '\u{e200}', i, k);
            match find_char_from(s, '\u{e201}', k + 1) {
                Option::None => {},
                Option::Some(j) => {
                    lemma_find_char_from_props(s, '\u{e201}', k + 1, j);
                },
            }
        },
    }
}

/// `s` with private-use citation spans (U+E200 .. U+E201) removed, together
/// with the spaces and tabs immediately before each span.
pub open spec fn spec_strip_citations(s: Seq<char>) -> Seq<char> {
    spec_strip_cit_from(Seq::empty(), s, 0)
}

proof fn lemma_find_char_from_props(s: Seq<char>, c: char, i: int, k: int)
    requires
        find_char_from(s, c, i) == Some(k),
    ensures
        i <= k < s.len(),
        s[k] == c,
    decreases s.len() - i,
{
    if 0 <= i < s.len() && s[i] != c {
        lemma_find_char_from_props(s, c, i + 1, k);
    }
}

/// Removes citation spans from agent text (see [`spec_strip_citations`]).
pub fn strip_tool_citations(text: &str) -> (r: String)
    ensures
        r@ == spec_strip_citations(text@),
{
    let v = chars_of(text);
    let n = v.len();
    let mut acc: Vec<char> = Vec::new();
    let mut i: usize = 0;
    loop
        invariant_except_break
            spec_strip_citations(v@) == spec_strip_cit_from(acc@, v@, i as int),
        invariant
            0 <= i <= n == v@.len(),
        ensures
            acc@ == spec_strip_citations(v@),
        decreases n - i,
    {
        let ghost acc_in = acc@;
        let ghost i_in = i as int;
        match find_char_at(&v, '\u{e200}', i) {
            Option::None => {
                append_range(&mut acc, &v, i, n);
                proof {
                    assert(v@.subrange(i as int, n as int) =~= v@.skip(i as int));
                    assert(acc@ == spec_strip_cit_from(acc_in, v@, i_in));
                }
                break;
            },
            Option::Some(k) => {
                proof {
                    lemma_find_char_from_props(v@, '\u{e200}', i as int, k as int);
                }
                append_range(&mut acc, &v, i, k);
                let ghost grown = acc@;
                let mut m = acc.len();
                while m > 0 && (acc[m - 1] == ' ' || acc[m - 1] == '\t')
                    invariant
                        0 <= m <= grown.len(),
                        acc@ == grown,
                        sp_tab_run_start(grown, grown.len() as int) == sp_tab_run_start(
                            grown,
                            m as int,
                        ),
                    decreases m,
                {
                    m = m - 1;
                }
                proof {
                    assert(sp_tab_run_start(grown, m as int) == m as int);
                }
                acc.truncate(m);
                proof {
                    assert(acc@ =~= grown.take(sp_tab_run_start(grown, grown.len() as int)));
                }
                match find_char_at(&v, '\u{e201}', k + 1) {
                    Option::None => {
                        proof {
                            assert(acc@ == spec_strip_cit_from(acc_in, v@, i_in));
                        }
                        break;
                    },
                    Option::Some(j) => {
                        proof {
                            lemma_find_char_from_props(v@, '\u{e201}', k as int + 1, j as int);
                        }
                        i = j + 1;
                    },
                }
            },
        }
    }
    string_from_chars(acc.as_slice())
}

} // verus!

verus! {

/// Whether `s` ends with `pat`.
pub open spec fn has_suffix(s: Seq<char>, pat: Seq<char>) -> bool {
    pat.len() <= s.len() && s.skip(s.len() - pat.len()) == pat
}

/// Executable test for [`has_suffix`].
pub fn ends_with_chars(v: &Vec<char>, pat: &Vec<char>) -> (r: bool)
    ensures
        r == has_suffix(v@, pat@),
{
    let n = v.len();
    let m = pat.len();
    if m > n {
        return false;
    }
    let r = match_chars_at(v, pat, n - m);
    proof {
        assert(v@.subrange(n - m, n as int) =~= v@.skip(n - m));
    }
    r
}

/// Whether two string slices hold the same characters.
pub fn str_eq(a: &str, b: &str) -> (r: bool)
    ensures
        r == (a@ == b@),
{
    let x: String = a.to_owned();
    let y: String = b.to_owned();
    x == y
}

/// Whether an optional owned string holds exactly the characters `lit`.
pub fn opt_string_is(v: Option<&String>, lit: &str) -> (r: bool)
    ensures
        r == (match v {
            Some(s) => s@ == lit@,
            None => false,
        }),
{
    match v {
        Some(s) => str_eq(s.as_str(), lit),
        None => false,
    }
}

} // verus!

verus! {

/// A line with a trailing carriage return removed, as `str::lines` yields
/// it.
pub open spec fn strip_cr(l: Seq<char>) -> Seq<char> {
    if l.len() > 0 && l.last() == '\r' {
        l.drop_last()
    } else {
        l
    }
}

/// The lines of `s` from position `i` on: pieces between newlines, each
/// with a trailing carriage return removed, and no empty piece after a
/// final newline — the splitting `str::lines` performs.
pub open spec fn spec_lines_from(s: Seq<char>, i: int) -> Seq<Seq<char>>
    decreases s.len() - i
        when 0 <= i <= s.len()
        via spec_lines_from_dec
{
    if i >= s.len() {
        Seq::empty()
    } else {
        match find_char_from(s, '\n', i) {
            Option::Some(k) => seq![strip_cr(s.subrange(i, k))] + spec_lines_from(s, k + 1),
            Option::None => seq![strip_cr(s.skip(i))],
        }
    }
}

#[via_fn]
proof fn spec_lines_from_dec(s: Seq<char>, i: int) {
    if 0 <= i < s.len() {
        match find_char_from(s, '\n', i) {
            Option::Some(k) => {
                lemma_find_char_from_props(s, '\n', i, k);
            },
            Option::None => {},
        }
    }
}

/// The lines of `s`, as `str::lines` yields them.
pub open spec fn spec_lines(s: Seq<char>) -> Seq<Seq<char>> {
    spec_lines_from(s, 0)
}

/// Splits text into lines (see [`spec_lines`]).
pub fn split_lines(text: &str) -> (r: Vec<String>)
    ensures
        r@.map_values(|l: String| l@) == spec_lines(text@),
{
    let v = chars_of(text);
    let n = v.len();
    let mut out: Vec<String> = Vec::new();
    let mut i: usize = 0;
    while i < n
        invariant
            0 <= i <= n == v@.len(),
            out@.map_values(|l: String| l@) + spec_lines_from(v@, i as int) == spec_lines(v@),
        ensures
            i >= n,
            out@.map_values(|l: String| l@) == spec_lines(v@),
        decreases n - i,
    {
        let piece: Vec<char> = match find_char_at(&v, '\n', i) {
            Some(k) => {
                let p = subrange_chars(&v, i, k);
                let stripped = if p.len() > 0 && p[p.len() - 1] == '\r' {
                    subrange_chars(&p, 0, p.len() - 1)
                } else {
                    p
                };
                proof {
                    assert(v@.subrange(i as int, k as int).drop_last() =~= v@.subrange(
                        i as int,
                        k as int,
                    ).subrange(0, v@.subrange(i as int, k as int).len() - 1));
                }
                let ghost before = out@.map_values(|l: String| l@);
                let s = string_from_chars(stripped.as_slice());
                out.push(s);
                proof {
                    assert(out@.map_values(|l: String| l@) =~= before.push(
                        strip_cr(v@.subrange(i as int, k as int)),
                    ));
                    assert(before.push(strip_cr(v@.subrange(i as int, k as int)))
                        + spec_lines_from(v@, k + 1) =~= before + spec_lines_from(v@, i as int));
                }
                i = k + 1;
                continue;
            },
            None => {
                let p = subrange_chars(&v, i, n);
                proof {
                    assert(v@.subrange(i as int, n as int) =~= v@.skip(i as int));
                }
                p
            },
        };
        let stripped = if piece.len() > 0 && piece[piece.len() - 1] == '\r' {
            let q = subrange_chars(&piece, 0, piece.len() - 1);
            proof {
                assert(piece@.subrange(0, piece@.len() - 1) =~= piece@.drop_last());
            }
            q
        } else {
            piece
        };
        let ghost before = out@.map_values(|l: String| l@);
        let s = string_from_chars(stripped.as_slice());
        out.push(s);
        proof {
            assert(out@.map_values(|l: String| l@) =~= before.push(strip_cr(v@.skip(i as int))));
            assert(before.push(strip_cr(v@.skip(i as int))) =~= before + spec_lines_from(
                v@,
                i as int,
            ));
        }
        i = n;
    }
    out
}

} // verus!
