//! Helpers for lists of file-system paths, kept as plain strings.

use vstd::prelude::*;

verus! {

/// True when some entry of `s` has exactly the characters `x`.
pub open spec fn seq_has_str(s: Seq<String>, x: Seq<char>) -> bool {
    exists|i: int| 0 <= i < s.len() && #[trigger] s[i]@ == x
}

/// Appends `path` to `out` unless an equal path is already present.
pub fn push_unique(out: &mut Vec<String>, path: String)
    ensures
        seq_has_str(old(out)@, path@) ==> final(out)@ == old(out)@,
        !seq_has_str(old(out)@, path@) ==> final(out)@ == old(out)@.push(path),
{
    let n = out.len();
    for i in 0..n
        invariant
            n == out.len(),
            out@ == old(out)@,
            forall|j: int| 0 <= j < i ==> #[trigger] out@[j]@ != path@,
    {
        if out[i] == path {
            return;
        }
    }
    out.push(path);
}

} // verus!
