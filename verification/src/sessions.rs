//! Chat sessions of the web front end: which session ids are accepted (they
//! become file names) and why a chat request can be refused.

use vstd::prelude::*;

use crate::game_extract::{ends_with_vec, has_suffix, nvec_prefix};
use crate::text::{chars_of, string_from_chars};

verus! {

/// Why a chat request failed (busy → HTTP 409, invalid id → 400,
/// failed → 500).
#[derive(Debug)]
pub enum ChatError {
    Busy,
    InvalidId,
    Failed(String),
}

/// A character allowed in a session id.
pub open spec fn session_id_char(c: char) -> bool {
    ('a' <= c <= 'z') || ('A' <= c <= 'Z') || ('0' <= c <= '9') || c == '_' || c == '-'
}

/// A session id that may name a file: 1 to 64 ASCII letters, digits,
/// underscores or hyphens.
pub open spec fn is_valid_session_id(s: Seq<char>) -> bool {
    0 < s.len() <= 64 && forall|i: int| 0 <= i < s.len() ==> session_id_char(#[trigger] s[i])
}

/// Whether `id` is a valid session id.
pub fn valid_id(id: &str) -> (r: bool)
    ensures
        r == is_valid_session_id(id@),
{
    let v = chars_of(id);
    if v.len() == 0 || v.len() > 64 {
        return false;
    }
    let mut i: usize = 0;
    while i < v.len()
        invariant
            v@ == id@,
            i <= v@.len(),
            forall|j: int| 0 <= j < i ==> session_id_char(#[trigger] v@[j]),
        decreases v@.len() - i,
    {
        let c = v[i];
        if !(('a' <= c && c <= 'z') || ('A' <= c && c <= 'Z') || ('0' <= c && c <= '9') || c == '_'
            || c == '-') {
            return false;
        }
        i = i + 1;
    }
    true
}

/// Lexicographic order of texts, by character (for UTF-8 text the same as
/// the byte order that `String` compares by).
pub open spec fn text_lt(a: Seq<char>, b: Seq<char>) -> bool
    decreases a.len(),
{
    if a.len() == 0 {
        b.len() > 0
    } else if b.len() == 0 {
        false
    } else if a[0] != b[0] {
        a[0] < b[0]
    } else {
        text_lt(a.drop_first(), b.drop_first())
    }
}

proof fn lemma_text_lt_irreflexive(a: Seq<char>)
    ensures
        !text_lt(a, a),
    decreases a.len(),
{
    if a.len() > 0 {
        lemma_text_lt_irreflexive(a.drop_first());
    }
}

proof fn lemma_text_lt_total(a: Seq<char>, b: Seq<char>)
    ensures
        a != b ==> text_lt(a, b) || text_lt(b, a),
        !(text_lt(a, b) && text_lt(b, a)),
    decreases a.len(),
{
    if a.len() > 0 && b.len() > 0 {
        lemma_text_lt_total(a.drop_first(), b.drop_first());
        if a != b && a[0] == b[0] {
            assert(a.drop_first() != b.drop_first()) by {
                if a.drop_first() == b.drop_first() {
                    assert(a =~= seq![a[0]] + a.drop_first());
                    assert(b =~= seq![b[0]] + b.drop_first());
                }
            }
        }
    } else if a.len() == 0 && b.len() == 0 {
        assert(a =~= b);
    }
}

proof fn lemma_text_lt_transitive(a: Seq<char>, b: Seq<char>, c: Seq<char>)
    requires
        text_lt(a, b),
        text_lt(b, c),
    ensures
        text_lt(a, c),
    decreases a.len(),
{
    if a.len() > 0 && b.len() > 0 && c.len() > 0 && a[0] == b[0] && b[0] == c[0] {
        lemma_text_lt_transitive(a.drop_first(), b.drop_first(), c.drop_first());
    }
}

/// Whether `a` comes before `b`.
fn chars_lt(a: &Vec<char>, b: &Vec<char>) -> (r: bool)
    ensures
        r == text_lt(a@, b@),
{
    let mut i: usize = 0;
    assert(a@.subrange(0, a@.len() as int) =~= a@);
    assert(b@.subrange(0, b@.len() as int) =~= b@);
    while i < a.len() && i < b.len() && a[i] == b[i]
        invariant
            i <= a@.len(),
            i <= b@.len(),
            text_lt(a@, b@) == text_lt(
                a@.subrange(i as int, a@.len() as int),
                b@.subrange(i as int, b@.len() as int),
            ),
        decreases a@.len() - i,
    {
        proof {
            assert(a@.subrange(i as int, a@.len() as int).drop_first() =~= a@.subrange(
                i + 1,
                a@.len() as int,
            ));
            assert(b@.subrange(i as int, b@.len() as int).drop_first() =~= b@.subrange(
                i + 1,
                b@.len() as int,
            ));
        }
        i = i + 1;
    }
    if i == a.len() {
        i < b.len()
    } else if i == b.len() {
        false
    } else {
        a[i] < b[i]
    }
}

/// Whether the text at `i` comes before `x`.
fn text_before(v: &Vec<String>, i: usize, x: &Vec<char>) -> (r: bool)
    requires
        i < v@.len(),
    ensures
        r == text_lt(v@[i as int]@, x@),
{
    let cur = chars_of(v[i].as_str());
    chars_lt(&cur, x)
}

/// Strictly ascending texts.
pub open spec fn texts_ascending(s: Seq<Seq<char>>) -> bool {
    forall|i: int, j: int| 0 <= i < j < s.len() ==> text_lt(s[i], s[j])
}

/// The views of strings.
pub open spec fn id_views(v: Seq<String>) -> Seq<Seq<char>> {
    v.map_values(|x: String| x@)
}

/// Inserts `x` into strictly ascending texts unless it is already there.
fn insert_text(v: &mut Vec<String>, x: String)
    requires
        texts_ascending(id_views(old(v)@)),
    ensures
        texts_ascending(id_views(final(v)@)),
        forall|y: Seq<char>|
            id_views(final(v)@).contains(y) <==> (id_views(old(v)@).contains(y) || y == x@),
{
    let xv = chars_of(x.as_str());
    let ghost before = id_views(v@);
    let mut i: usize = 0;
    while i < v.len() && text_before(v, i, &xv)
        invariant
            i <= v@.len(),
            v@ == old(v)@,
            before == id_views(v@),
            xv@ == x@,
            texts_ascending(before),
            forall|k: int| 0 <= k < i ==> text_lt(#[trigger] before[k], x@),
        decreases v@.len() - i,
    {
        i = i + 1;
    }
    if i < v.len() {
        let cur = chars_of(v[i].as_str());
        proof {
            lemma_text_lt_total(cur@, x@);
        }
        if !chars_lt(&xv, &cur) {
            proof {
                assert(before[i as int] == x@);
            }
            return;
        }
    }
    let ghost at = i;
    v.insert(i, x);
    let ghost after = id_views(v@);
    assert(after =~= before.subrange(0, at as int).push(xv@) + before.subrange(at as int, before.len() as int));
    assert(texts_ascending(after)) by {
        assert forall|p: int, q: int| 0 <= p < q < after.len() implies text_lt(after[p], after[q]) by {
            if q < at {
            } else if q == at {
            } else if p < at {
                assert(after[q] == before[q - 1]);
                assert(text_lt(xv@, before[at as int]));
                if q - 1 > at {
                    lemma_text_lt_transitive(xv@, before[at as int], before[q - 1]);
                }
                assert(after[p] == before[p]);
                lemma_text_lt_transitive(after[p], xv@, after[q]);
            } else if p == at {
                assert(after[q] == before[q - 1]);
                if q - 1 > at {
                    lemma_text_lt_transitive(xv@, before[at as int], before[q - 1]);
                }
            } else {
                assert(after[p] == before[p - 1]);
                assert(after[q] == before[q - 1]);
            }
        }
    }
    assert forall|y: Seq<char>| after.contains(y) <==> (before.contains(y) || y == xv@) by {
        if after.contains(y) {
            let k = choose|k: int| 0 <= k < after.len() && after[k] == y;
            if k < at {
                assert(before[k] == y);
            } else if k > at {
                assert(before[k - 1] == y);
            }
        }
        if before.contains(y) {
            let k = choose|k: int| 0 <= k < before.len() && before[k] == y;
            if k < at {
                assert(after[k] == y);
            } else {
                assert(after[k + 1] == y);
            }
        }
        if y == xv@ {
            assert(after[at as int] == y);
        }
    }
}

/// The session id that a stored session file `<id>.json` names.
pub open spec fn json_stem(name: Seq<char>) -> Option<Seq<char>> {
    if has_suffix(name, ".json"@) && name.len() > 5 {
        Some(name.subrange(0, name.len() - 5))
    } else {
        None
    }
}

/// The ids of all sessions, live or stored, ascending and without
/// repeats: the live ones and those named by `<id>.json` files.
pub fn list_ids(active: &[String], file_names: &[String]) -> (r: Vec<String>)
    ensures
        texts_ascending(id_views(r@)),
        forall|y: Seq<char>|
            id_views(r@).contains(y) <==> (id_views(active@).contains(y) || exists|j: int|
                0 <= j < file_names@.len() && json_stem(#[trigger] file_names@[j]@) == Some(y)),
{
    let mut r: Vec<String> = Vec::new();
    let mut i: usize = 0;
    while i < active.len()
        invariant
            i <= active@.len(),
            texts_ascending(id_views(r@)),
            forall|y: Seq<char>|
                id_views(r@).contains(y) <==> id_views(active@.take(i as int)).contains(y),
        decreases active@.len() - i,
    {
        let ghost before = id_views(r@);
        insert_text(&mut r, active[i].clone());
        proof {
            let t0 = id_views(active@.take(i as int));
            let t1 = id_views(active@.take(i + 1));
            assert(t1 =~= t0.push(active@[i as int]@));
            assert forall|y: Seq<char>| t1.contains(y) <==> (t0.contains(y) || y == active@[i as int]@) by {
                if t1.contains(y) {
                    let k = choose|k: int| 0 <= k < t1.len() && t1[k] == y;
                    if k < t0.len() {
                        assert(t0[k] == y);
                    }
                }
                if t0.contains(y) {
                    let k = choose|k: int| 0 <= k < t0.len() && t0[k] == y;
                    assert(t1[k] == y);
                }
                if y == active@[i as int]@ {
                    assert(t1[i as int] == y);
                }
            }
        }
        i = i + 1;
    }
    assert(active@.take(active@.len() as int) =~= active@);
    let json = chars_of(".json");
    proof {
        reveal_strlit(".json");
    }
    let mut j: usize = 0;
    while j < file_names.len()
        invariant
            j <= file_names@.len(),
            json@ == ".json"@,
            texts_ascending(id_views(r@)),
            forall|y: Seq<char>|
                id_views(r@).contains(y) <==> (id_views(active@).contains(y) || exists|k: int|
                    0 <= k < j && json_stem(#[trigger] file_names@[k]@) == Some(y)),
        decreases file_names@.len() - j,
    {
        let v = chars_of(file_names[j].as_str());
        let ghost nm = file_names@[j as int]@;
        if v.len() > 5 && ends_with_vec(&v, &json) {
            let stem_v = nvec_prefix(&v, v.len() - 5);
            let stem = string_from_chars(stem_v.as_slice());
            assert(json_stem(nm) == Some(stem@));
            insert_text(&mut r, stem);
        } else {
            assert(json_stem(nm) is None);
        }
        j = j + 1;
    }
    r
}

/// Whether a session has a chat turn running. Taking it is one step, so
/// of two requests that come together only one gets the turn.
pub struct BusyFlag {
    busy: bool,
}

impl BusyFlag {
    /// Whether a turn holds the flag.
    pub closed spec fn is_busy(&self) -> bool {
        self.busy
    }

    /// An idle session.
    pub fn new() -> (r: BusyFlag)
        ensures
            !r.is_busy(),
    {
        BusyFlag { busy: false }
    }

    /// Whether a turn is running.
    pub fn busy(&self) -> (r: bool)
        ensures
            r == self.is_busy(),
    {
        self.busy
    }

    /// Takes the flag if it is free: `true` when this call took it.
    pub fn try_acquire(&mut self) -> (r: bool)
        ensures
            r == !old(self).is_busy(),
            final(self).is_busy(),
    {
        if self.busy {
            false
        } else {
            self.busy = true;
            true
        }
    }

    /// Frees the flag (the turn ended, or could not be handed over).
    pub fn release(&mut self)
        ensures
            !final(self).is_busy(),
    {
        self.busy = false;
    }
}

/// How a request to start a chat turn ends.
pub enum StartOutcome {
    Started,
    Invalid,
    Busy,
}

/// The outcome of a start request on a session whose flag is `busy`, and
/// the flag afterwards.
pub open spec fn start_outcome(id: Seq<char>, busy: bool) -> (StartOutcome, bool) {
    if !is_valid_session_id(id) {
        (StartOutcome::Invalid, busy)
    } else if busy {
        (StartOutcome::Busy, true)
    } else {
        (StartOutcome::Started, true)
    }
}

/// Starts a chat turn on a session: an invalid id is refused, a session
/// with a turn running is busy; otherwise the flag is taken and the turn
/// may be handed to the session.
pub fn start_chat(flag: &mut BusyFlag, id: &str) -> (r: Result<(), ChatError>)
    ensures
        final(flag).is_busy() == start_outcome(id@, old(flag).is_busy()).1,
        match start_outcome(id@, old(flag).is_busy()).0 {
            StartOutcome::Started => r is Ok,
            StartOutcome::Invalid => r matches Err(ChatError::InvalidId),
            StartOutcome::Busy => r matches Err(ChatError::Busy),
        },
{
    if !valid_id(id) {
        return Err(ChatError::InvalidId);
    }
    if !flag.try_acquire() {
        return Err(ChatError::Busy);
    }
    Ok(())
}

/// The turn could not be handed to the session: the flag is freed, so the
/// session does not stay busy for ever, and the request fails.
pub fn hand_over_failed(flag: &mut BusyFlag) -> (r: ChatError)
    ensures
        !final(flag).is_busy(),
        r matches ChatError::Failed(m) && m@ == "session actor terminated"@,
{
    flag.release();
    ChatError::Failed("session actor terminated".to_string())
}

/// Of two requests in a row on an idle session, the first starts a turn and
/// the second is told that the session is busy; once the turn is over (or
/// could not be handed over) and the flag is freed, a request starts again.
pub proof fn law_one_turn_at_a_time(id: Seq<char>)
    requires
        is_valid_session_id(id),
    ensures
        start_outcome(id, false).0 is Started,
        start_outcome(id, start_outcome(id, false).1).0 is Busy,
        start_outcome(id, false).1,
{
}

} // verus!
