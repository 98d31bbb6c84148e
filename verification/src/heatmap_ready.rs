//! Readiness of heat-map sessions: the 3D viewer reports that a session's
//! heat map is rendered, and a long poll waits for that report.

use vstd::prelude::*;

use crate::text::str_eq;

verus! {

/// The set of sessions whose heat map is rendered.
pub struct ReadySessions {
    ids: Vec<String>,
}

impl View for ReadySessions {
    type V = Set<Seq<char>>;

    closed spec fn view(&self) -> Set<Seq<char>> {
        Set::new(|s: Seq<char>| exists|i: int| 0 <= i < self.ids@.len() && self.ids@[i]@ == s)
    }
}

impl ReadySessions {
    /// No session is ready.
    pub fn new() -> (r: ReadySessions)
        ensures
            r@ == Set::<Seq<char>>::empty(),
    {
        let r = ReadySessions { ids: Vec::new() };
        assert(r@ =~= Set::<Seq<char>>::empty());
        r
    }
}

/// Marks a session ready; an empty session name is ignored.
pub fn mark_session_ready(ready: &mut ReadySessions, sess: &str)
    ensures
        sess@.len() == 0 ==> final(ready)@ == old(ready)@,
        sess@.len() > 0 ==> final(ready)@ == old(ready)@.insert(sess@),
{
    if sess.is_empty() {
        return;
    }
    if session_ready(ready, sess) {
        assert(ready@.insert(sess@) =~= ready@);
        return;
    }
    let ghost before = ready@;
    ready.ids.push(sess.to_string());
    assert forall|s: Seq<char>| ready@.contains(s) <==> before.insert(sess@).contains(s) by {
        if ready@.contains(s) {
            let i = choose|i: int| 0 <= i < ready.ids@.len() && ready.ids@[i]@ == s;
            if i < ready.ids@.len() - 1 {
                assert(old(ready).ids@[i]@ == s);
            }
        }
        if before.contains(s) {
            let i = choose|i: int| 0 <= i < old(ready).ids@.len() && old(ready).ids@[i]@ == s;
            assert(ready.ids@[i]@ == s);
        }
        if s == sess@ {
            assert(ready.ids@[ready.ids@.len() - 1]@ == s);
        }
    }
    assert(ready@ =~= before.insert(sess@));
}

/// Whether the session was marked ready.
pub fn session_ready(ready: &ReadySessions, sess: &str) -> (r: bool)
    ensures
        r == ready@.contains(sess@),
{
    let mut i: usize = 0;
    while i < ready.ids.len()
        invariant
            i <= ready.ids@.len(),
            forall|j: int| 0 <= j < i ==> ready.ids@[j]@ != sess@,
        decreases ready.ids@.len() - i,
    {
        if str_eq(ready.ids[i].as_str(), sess) {
            return true;
        }
        i = i + 1;
    }
    false
}

/// Law: once a non-empty session is marked, it reads as ready, and marking
/// never unmarks another session.
pub proof fn law_mark_then_ready(before: Set<Seq<char>>, sess: Seq<char>, other: Seq<char>)
    requires
        sess.len() > 0,
    ensures
        before.insert(sess).contains(sess),
        before.contains(other) ==> before.insert(sess).contains(other),
{
}

/// The ready sessions after starting empty and marking `marks` in order,
/// as `mark_session_ready` changes them.
pub open spec fn ready_after(marks: Seq<Seq<char>>) -> Set<Seq<char>>
    decreases marks.len(),
{
    if marks.len() == 0 {
        Set::empty()
    } else {
        let prev = ready_after(marks.drop_last());
        if marks.last().len() == 0 {
            prev
        } else {
            prev.insert(marks.last())
        }
    }
}

/// Law: after any sequence of marks on a new set, a session is ready
/// exactly when it is not empty and was marked; so the empty name is never
/// ready, and no session is ready before it is marked.
pub proof fn law_ready_iff_marked(marks: Seq<Seq<char>>, sess: Seq<char>)
    ensures
        ready_after(marks).contains(sess) <==> (sess.len() > 0 && marks.contains(sess)),
    decreases marks.len(),
{
    if marks.len() > 0 {
        let pre = marks.drop_last();
        law_ready_iff_marked(pre, sess);
        assert(marks =~= pre.push(marks.last()));
        if pre.contains(sess) {
            let k = choose|k: int| 0 <= k < pre.len() && pre[k] == sess;
            assert(marks[k] == sess);
        }
        if marks.contains(sess) && sess != marks.last() {
            let k = choose|k: int| 0 <= k < marks.len() && marks[k] == sess;
            assert(k < pre.len());
            assert(pre[k] == sess);
        }
        if sess == marks.last() {
            assert(marks[marks.len() - 1] == sess);
        }
    }
}

} // verus!
