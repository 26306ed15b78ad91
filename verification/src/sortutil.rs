//! Verified selection sorts for the orderings the service needs: numeric
//! key triples (timestamps with tie-breaking sequence numbers) and keyed
//! strings (file names, lower-cased skill names).

use vstd::prelude::*;
use vstd::multiset::Multiset;

verus! {

broadcast use {vstd::seq_lib::group_to_multiset_ensures, vstd::multiset::group_multiset_axioms};

/// Lexicographic order on (key, key, index) triples.
pub open spec fn key3_le(a: (u64, u64, usize), b: (u64, u64, usize)) -> bool {
    a.0 < b.0 || (a.0 == b.0 && (a.1 < b.1 || (a.1 == b.1 && a.2 <= b.2)))
}

/// Whether `s` is sorted by [`key3_le`].
pub open spec fn sorted3(s: Seq<(u64, u64, usize)>) -> bool {
    forall|i: int, j: int| 0 <= i < j < s.len() ==> key3_le(#[trigger] s[i], #[trigger] s[j])
}

fn key3_le_exec(a: (u64, u64, usize), b: (u64, u64, usize)) -> (r: bool)
    ensures
        r == key3_le(a, b),
{
    a.0 < b.0 || (a.0 == b.0 && (a.1 < b.1 || (a.1 == b.1 && a.2 <= b.2)))
}

/// Sorts triples by [`key3_le`]; the result holds exactly the input
/// triples.
pub fn sort_triples(v: Vec<(u64, u64, usize)>) -> (r: Vec<(u64, u64, usize)>)
    ensures
        sorted3(r@),
        r@.to_multiset() == v@.to_multiset(),
{
    let ghost orig = v@.to_multiset();
    let mut work = v;
    let mut out: Vec<(u64, u64, usize)> = Vec::new();
    while work.len() > 0
        invariant
            out@.to_multiset().add(work@.to_multiset()) == orig,
            sorted3(out@),
            forall|i: int, j: int|
                0 <= i < out@.len() && 0 <= j < work@.len() ==> key3_le(
                    #[trigger] out@[i],
                    #[trigger] work@[j],
                ),
        decreases work@.len(),
    {
        let n = work.len();
        let mut m: usize = 0;
        let mut j: usize = 1;
        while j < n
            invariant
                0 <= m < j <= n == work@.len(),
                forall|k: int| 0 <= k < j ==> key3_le(work@[m as int], #[trigger] work@[k]),
            decreases n - j,
        {
            if key3_le_exec(work[j], work[m]) {
                m = j;
            }
            j = j + 1;
        }
        let x = work.remove(m);
        out.push(x);
    }
    proof {
        assert(work@.to_multiset() =~= Multiset::empty());
        assert(out@.to_multiset() =~= orig);
    }
    out
}

/// Lexicographic order on character sequences from position `i` on; the
/// order `str` comparison gives, since UTF-8 bytes order as code points do.
pub open spec fn lex_le_from(a: Seq<char>, b: Seq<char>, i: int) -> bool
    decreases a.len() - i,
{
    if i < 0 || i >= a.len() {
        true
    } else if i >= b.len() {
        false
    } else if a[i] != b[i] {
        a[i] < b[i]
    } else {
        lex_le_from(a, b, i + 1)
    }
}

/// Lexicographic order on character sequences.
pub open spec fn lex_le(a: Seq<char>, b: Seq<char>) -> bool {
    lex_le_from(a, b, 0)
}

proof fn lemma_lex_total_from(a: Seq<char>, b: Seq<char>, i: int)
    ensures
        lex_le_from(a, b, i) || lex_le_from(b, a, i),
    decreases a.len() - i,
{
    if 0 <= i && i < a.len() && i < b.len() && a[i] == b[i] {
        lemma_lex_total_from(a, b, i + 1);
    }
}

proof fn lemma_lex_trans_from(a: Seq<char>, b: Seq<char>, c: Seq<char>, i: int)
    requires
        lex_le_from(a, b, i),
        lex_le_from(b, c, i),
    ensures
        lex_le_from(a, c, i),
    decreases a.len() - i,
{
    if 0 <= i && i < a.len() && i < b.len() && i < c.len() && a[i] == b[i] && b[i] == c[i] {
        lemma_lex_trans_from(a, b, c, i + 1);
    }
}

/// Totality of [`lex_le`].
pub proof fn lemma_lex_total(a: Seq<char>, b: Seq<char>)
    ensures
        lex_le(a, b) || lex_le(b, a),
{
    lemma_lex_total_from(a, b, 0);
}

/// Transitivity of [`lex_le`].
pub proof fn lemma_lex_trans(a: Seq<char>, b: Seq<char>, c: Seq<char>)
    requires
        lex_le(a, b),
        lex_le(b, c),
    ensures
        lex_le(a, c),
{
    lemma_lex_trans_from(a, b, c, 0);
}

/// Decides [`lex_le`] on character vectors.
pub fn lex_le_chars(a: &Vec<char>, b: &Vec<char>) -> (r: bool)
    ensures
        r == lex_le(a@, b@),
{
    let na = a.len();
    let nb = b.len();
    let mut i: usize = 0;
    loop
        invariant
            0 <= i <= na == a@.len(),
            nb == b@.len(),
            lex_le(a@, b@) == lex_le_from(a@, b@, i as int),
        decreases na - i,
    {
        if i >= na {
            return true;
        }
        if i >= nb {
            return false;
        }
        if a[i] != b[i] {
            return a[i] < b[i];
        }
        i = i + 1;
    }
}

/// Decides [`lex_le`] on string slices.
pub fn lex_le_str(a: &str, b: &str) -> (r: bool)
    ensures
        r == lex_le(a@, b@),
{
    let av = crate::text::chars_of(a);
    let bv = crate::text::chars_of(b);
    lex_le_chars(&av, &bv)
}

/// Whether the keys of `s` are sorted by [`lex_le`].
pub open spec fn sorted_by_key(s: Seq<(String, usize)>) -> bool {
    forall|i: int, j: int| 0 <= i < j < s.len() ==> lex_le(#[trigger] s[i].0@, #[trigger] s[j].0@)
}

/// Sorts (key, index) pairs by their key under [`lex_le`]; the result holds
/// exactly the input pairs.
pub fn sort_keyed(v: Vec<(String, usize)>) -> (r: Vec<(String, usize)>)
    ensures
        sorted_by_key(r@),
        r@.to_multiset() == v@.to_multiset(),
{
    let ghost orig = v@.to_multiset();
    let mut work = v;
    let mut out: Vec<(String, usize)> = Vec::new();
    while work.len() > 0
        invariant
            out@.to_multiset().add(work@.to_multiset()) == orig,
            sorted_by_key(out@),
            forall|i: int, j: int|
                0 <= i < out@.len() && 0 <= j < work@.len() ==> lex_le(
                    #[trigger] out@[i].0@,
                    #[trigger] work@[j].0@,
                ),
        decreases work@.len(),
    {
        let n = work.len();
        let mut m: usize = 0;
        let mut j: usize = 1;
        proof {
            lemma_lex_total(work@[0].0@, work@[0].0@);
        }
        while j < n
            invariant
                0 <= m < j <= n == work@.len(),
                forall|k: int| 0 <= k < j ==> lex_le(work@[m as int].0@, #[trigger] work@[k].0@),
            decreases n - j,
        {
            let swap = lex_le_str(work[j].0.as_str(), work[m].0.as_str());
            proof {
                lemma_lex_total(work@[j as int].0@, work@[m as int].0@);
            }
            if swap {
                proof {
                    assert forall|k: int| 0 <= k < j + 1 implies lex_le(
                        work@[j as int].0@,
                        #[trigger] work@[k].0@,
                    ) by {
                        if k < j {
                            lemma_lex_trans(work@[j as int].0@, work@[m as int].0@, work@[k].0@);
                        } else {
                            lemma_lex_total(work@[j as int].0@, work@[j as int].0@);
                        }
                    }
                }
                m = j;
            }
            j = j + 1;
        }
        let x = work.remove(m);
        out.push(x);
    }
    proof {
        assert(work@.to_multiset() =~= Multiset::empty());
        assert(out@.to_multiset() =~= orig);
    }
    out
}

} // verus!
