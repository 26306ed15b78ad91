//! The registry of live run handles: at most one per session id.

use vstd::prelude::*;

verus! {

/// One live turn's handle: whether its cancellation token is still
/// untaken, and the child's process id once known.
pub struct RunHandle {
    pub session_id: String,
    pub cancel_live: bool,
    pub pid: Option<u32>,
}

/// The registry of run handles, keyed by session id.
pub struct RunRegistry {
    pub handles: Vec<RunHandle>,
}

/// The session ids of a handle list.
pub open spec fn reg_ids(s: Seq<RunHandle>) -> Seq<Seq<char>> {
    s.map_values(|h: RunHandle| h.session_id@)
}

/// How many handles of `s` carry the id `id`.
pub open spec fn id_count(s: Seq<RunHandle>, id: Seq<char>) -> int
    decreases s.len(),
{
    if s.len() == 0 {
        0
    } else {
        id_count(s.drop_last(), id) + (if s.last().session_id@ == id {
            1int
        } else {
            0int
        })
    }
}

impl RunRegistry {
    /// Well-formedness: no two handles share a session id.
    pub open spec fn wf(self) -> bool {
        forall|i: int, j: int|
            0 <= i < j < self.handles@.len() ==> (#[trigger] self.handles@[i].session_id)@ != (
            #[trigger] self.handles@[j].session_id)@
    }

    /// Whether a handle for `id` is present.
    pub open spec fn has(self, id: Seq<char>) -> bool {
        exists|i: int|
            0 <= i < self.handles@.len() && (#[trigger] self.handles@[i].session_id)@ == id
    }

    /// The handle for `id`, when present.
    pub open spec fn handle_of(self, id: Seq<char>) -> RunHandle
        recommends
            self.has(id),
    {
        self.handles@[choose|i: int|
            0 <= i < self.handles@.len() && (#[trigger] self.handles@[i].session_id)@ == id]
    }

    /// An empty registry.
    pub fn new() -> (r: RunRegistry)
        ensures
            r.wf(),
            r.handles@.len() == 0,
    {
        RunRegistry { handles: Vec::new() }
    }

    fn find(&self, id: &str) -> (r: Option<usize>)
        ensures
            match r {
                Some(i) => i < self.handles@.len() && self.handles@[i as int].session_id@ == id@,
                None => !self.has(id@),
            },
    {
        let n = self.handles.len();
        let mut i: usize = 0;
        while i < n
            invariant
                0 <= i <= n == self.handles@.len(),
                forall|j: int| 0 <= j < i ==> (#[trigger] self.handles@[j].session_id)@ != id@,
            decreases n - i,
        {
            if crate::text::str_eq(self.handles[i].session_id.as_str(), id) {
                return Some(i);
            }
            i = i + 1;
        }
        None
    }

    /// Whether a live turn is attached to `id`.
    pub fn contains(&self, id: &str) -> (r: bool)
        ensures
            r == self.has(id@),
    {
        self.find(id).is_some()
    }

    /// Attaches a new live turn to `id`: succeeds exactly when no handle for
    /// `id` is present, so attaching a second live turn is rejected
    /// deterministically. On success the new handle starts with a live
    /// cancellation token and no process id; nothing else changes.
    pub fn try_acquire(&mut self, id: String) -> (r: bool)
        requires
            old(self).wf(),
        ensures
            final(self).wf(),
            r == !old(self).has(id@),
            !r ==> *final(self) == *old(self),
            r ==> final(self).handles@ == old(self).handles@.push(
                RunHandle { session_id: id, cancel_live: true, pid: None },
            ),
            final(self).has(id@),
    {
        match self.find(id.as_str()) {
            Some(_) => {
                proof {
                    assert(old(self).has(id@));
                }
                false
            },
            None => {
                let h = RunHandle { session_id: id, cancel_live: true, pid: None };
                let ghost n = self.handles@.len();
                self.handles.push(h);
                proof {
                    assert(self.handles@[n as int].session_id@ == id@);
                }
                true
            },
        }
    }

    /// Records the child's process id on the handle of `id`, if present;
    /// other handles are untouched.
    pub fn set_pid(&mut self, id: &str, pid: u32)
        requires
            old(self).wf(),
        ensures
            final(self).wf(),
            final(self).handles@.len() == old(self).handles@.len(),
            forall|i: int|
                0 <= i < old(self).handles@.len() && (
                #[trigger] old(self).handles@[i].session_id)@ != id@ ==> final(self).handles@[i]
                    == old(self).handles@[i],
            forall|i: int|
                0 <= i < old(self).handles@.len() && (
                #[trigger] old(self).handles@[i].session_id)@ == id@ ==> final(self).handles@[i]
                    == (RunHandle { pid: Some(pid), ..old(self).handles@[i] }),
    {
        match self.find(id) {
            Some(i) => {
                let old_h = &self.handles[i];
                let h = RunHandle {
                    session_id: old_h.session_id.clone(),
                    cancel_live: old_h.cancel_live,
                    pid: Some(pid),
                };
                proof {
                    assert(h.session_id@ == old(self).handles@[i as int].session_id@);
                }
                self.handles.set(i, h);
                proof {
                    let pre = old(self).handles@;
                    let post = self.handles@;
                    assert forall|k: int|
                        0 <= k < pre.len() && (#[trigger] pre[k].session_id)@ == id@ implies
                        post[k] == (RunHandle { pid: Some(pid), ..pre[k] }) by {
                        if k != i {
                            assert(pre[k].session_id@ == pre[i as int].session_id@);
                            assert(false);
                        }
                    }
                }
            },
            None => {},
        }
    }

    /// Takes the cancellation token of `id`: returns `None` when no handle
    /// exists, otherwise whether the token was still live plus the recorded
    /// pid, marking the token taken. Stop is thereby idempotent: a second
    /// take returns a dead token.
    pub fn take_cancel(&mut self, id: &str) -> (r: Option<(bool, Option<u32>)>)
        requires
            old(self).wf(),
        ensures
            final(self).wf(),
            r is None ==> !old(self).has(id@) && *final(self) == *old(self),
            r matches Some(t) ==> old(self).has(id@) && spec_took_cancel(
                *old(self),
                *final(self),
                id@,
                t,
            ),
    {
        match self.find(id) {
            Some(i) => {
                let old_h = &self.handles[i];
                let was_live = old_h.cancel_live;
                let pid = old_h.pid;
                let h = RunHandle {
                    session_id: old_h.session_id.clone(),
                    cancel_live: false,
                    pid: old_h.pid,
                };
                proof {
                    assert(h.session_id@ == old(self).handles@[i as int].session_id@);
                }
                self.handles.set(i, h);
                Some((was_live, pid))
            },
            None => None,
        }
    }

    /// Detaches the handle of `id`, if present; every other handle stays.
    pub fn remove(&mut self, id: &str)
        requires
            old(self).wf(),
        ensures
            final(self).wf(),
            !final(self).has(id@),
            old(self).has(id@) ==> spec_removed(*old(self), *final(self), id@),
            !old(self).has(id@) ==> *final(self) == *old(self),
    {
        match self.find(id) {
            Some(i) => {
                self.handles.remove(i);
                proof {
                    assert forall|k: int|
                        0 <= k < self.handles@.len() implies (
                    #[trigger] self.handles@[k].session_id)@ != id@ by {
                        if k < i {
                            assert(self.handles@[k] == old(self).handles@[k]);
                        } else {
                            assert(self.handles@[k] == old(self).handles@[k + 1]);
                        }
                    }
                }
            },
            None => {},
        }
    }
}

/// What taking a cancellation token does: the handle of `id` reports its
/// token state and pid, and keeps everything but the token.
pub open spec fn spec_took_cancel(
    pre: RunRegistry,
    post: RunRegistry,
    id: Seq<char>,
    t: (bool, Option<u32>),
) -> bool {
    exists|i: int|
        0 <= i < pre.handles@.len() && (#[trigger] pre.handles@[i].session_id)@ == id && t.0
            == pre.handles@[i].cancel_live && t.1 == pre.handles@[i].pid && post.handles@
            == pre.handles@.update(i, RunHandle { cancel_live: false, ..pre.handles@[i] })
}

/// What detaching a handle does: exactly the handle of `id` leaves.
pub open spec fn spec_removed(pre: RunRegistry, post: RunRegistry, id: Seq<char>) -> bool {
    exists|i: int|
        0 <= i < pre.handles@.len() && (#[trigger] pre.handles@[i].session_id)@ == id
            && post.handles@ == pre.handles@.remove(i)
}

proof fn lemma_id_count_bound(s: Seq<RunHandle>, id: Seq<char>)
    requires
        forall|i: int, j: int|
            0 <= i < j < s.len() ==> (#[trigger] s[i].session_id)@ != (
            #[trigger] s[j].session_id)@,
    ensures
        id_count(s, id) <= 1,
        id_count(s, id) >= 0,
    decreases s.len(),
{
    if s.len() > 0 {
        let head = s.drop_last();
        lemma_id_count_bound(head, id);
        if s.last().session_id@ == id && id_count(head, id) > 0 {
            lemma_id_count_positive(head, id);
            let i = choose|i: int| 0 <= i < head.len() && (#[trigger] head[i].session_id)@ == id;
            assert(s[i] == head[i]);
            assert(false);
        }
    }
}

proof fn lemma_id_count_positive(s: Seq<RunHandle>, id: Seq<char>)
    requires
        id_count(s, id) > 0,
    ensures
        exists|i: int| 0 <= i < s.len() && (#[trigger] s[i].session_id)@ == id,
    decreases s.len(),
{
    if s.len() > 0 {
        if s.last().session_id@ == id {
            assert(s[s.len() - 1].session_id@ == id);
        } else {
            lemma_id_count_positive(s.drop_last(), id);
            let i = choose|i: int|
                0 <= i < s.drop_last().len() && (#[trigger] s.drop_last()[i].session_id)@ == id;
            assert(s[i] == s.drop_last()[i]);
        }
    }
}

/// At-most-one live turn: in a well-formed registry no session id ever has
/// more than one run handle, so a second concurrent turn on the same
/// session is impossible and its attempt is rejected (see
/// [`RunRegistry::try_acquire`]).
pub proof fn lemma_at_most_one_handle(r: RunRegistry, id: Seq<char>)
    requires
        r.wf(),
    ensures
        id_count(r.handles@, id) <= 1,
        r.has(id) ==> id_count(r.handles@, id) == 1,
{
    lemma_id_count_bound(r.handles@, id);
    if r.has(id) {
        lemma_id_count_ge_one(r.handles@, id);
    }
}

proof fn lemma_id_count_ge_one(s: Seq<RunHandle>, id: Seq<char>)
    requires
        exists|i: int| 0 <= i < s.len() && (#[trigger] s[i].session_id)@ == id,
    ensures
        id_count(s, id) >= 1,
    decreases s.len(),
{
    lemma_id_count_nonneg(s.drop_last(), id);
    let i = choose|i: int| 0 <= i < s.len() && (#[trigger] s[i].session_id)@ == id;
    if i == s.len() - 1 {
    } else {
        assert(s.drop_last()[i] == s[i]);
        lemma_id_count_ge_one(s.drop_last(), id);
    }
}

proof fn lemma_id_count_nonneg(s: Seq<RunHandle>, id: Seq<char>)
    ensures
        id_count(s, id) >= 0,
    decreases s.len(),
{
    if s.len() > 0 {
        lemma_id_count_nonneg(s.drop_last(), id);
    }
}

} // verus!
