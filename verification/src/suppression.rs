//! The suppression window: short-lived, process-local memory of which
//! identifiers produced an outcome recently.
//!
//! An identifier marked less than one time-to-live ago is skipped for the
//! current pass, so the engine does not hammer the platform for an entity it
//! checked moments ago.  The window is not the source of truth for duplicate
//! session detection (that is the stored session start comparison); it is
//! rebuilt empty on restart.
//!
//! The window is viewed as a [`Map`] from identifier (as a character
//! sequence) to the instant, in milliseconds, at which it was last marked.

use vstd::prelude::*;

verus! {

/// One remembered outcome: an identifier and when it was recorded.
struct Mark {
    identifier: String,
    at: i64,
}

/// Whether `id` is suppressed in window state `m` at instant `now` under
/// time-to-live `ttl`: it carries a mark whose age is below the
/// time-to-live.
pub open spec fn spec_suppressed(m: Map<Seq<char>, i64>, id: Seq<char>, now: i64, ttl: u64) -> bool {
    m.contains_key(id) && now - m[id] < ttl as int
}

/// A mapping from identifier to the last time that identifier produced an
/// outcome, with a fixed time-to-live.
pub struct SuppressionWindow {
    ttl_millis: u64,
    marks: Vec<Mark>,
}

spec fn unique_marks(s: Seq<Mark>) -> bool {
    forall|i: int, j: int|
        0 <= i < s.len() && 0 <= j < s.len() && i != j ==> s[i].identifier@ != s[j].identifier@
}

spec fn map_of(s: Seq<Mark>) -> Map<Seq<char>, i64>
    decreases s.len(),
{
    if s.len() == 0 {
        Map::empty()
    } else {
        map_of(s.drop_last()).insert(s.last().identifier@, s.last().at)
    }
}

proof fn lemma_map_of_index(s: Seq<Mark>, i: int)
    requires
        unique_marks(s),
        0 <= i < s.len(),
    ensures
        map_of(s).contains_key(s[i].identifier@),
        map_of(s)[s[i].identifier@] == s[i].at,
    decreases s.len(),
{
    if i == s.len() - 1 {
    } else {
        lemma_map_of_index(s.drop_last(), i);
        assert(s.last().identifier@ != s[i].identifier@);
    }
}

proof fn lemma_map_of_absent(s: Seq<Mark>, id: Seq<char>)
    requires
        forall|i: int| 0 <= i < s.len() ==> s[i].identifier@ != id,
    ensures
        !map_of(s).contains_key(id),
    decreases s.len(),
{
    if s.len() > 0 {
        lemma_map_of_absent(s.drop_last(), id);
    }
}

proof fn lemma_map_of_update(s: Seq<Mark>, i: int, m: Mark)
    requires
        unique_marks(s),
        0 <= i < s.len(),
        m.identifier@ == s[i].identifier@,
    ensures
        map_of(s.update(i, m)) == map_of(s).insert(m.identifier@, m.at),
    decreases s.len(),
{
    let t = s.update(i, m);
    if i == s.len() - 1 {
        assert(t.drop_last() =~= s.drop_last());
        assert(map_of(t) =~= map_of(s).insert(m.identifier@, m.at));
    } else {
        assert(t.drop_last() =~= s.drop_last().update(i, m));
        lemma_map_of_update(s.drop_last(), i, m);
        assert(s.last().identifier@ != m.identifier@);
        assert(map_of(t) =~= map_of(s).insert(m.identifier@, m.at));
    }
}

impl View for SuppressionWindow {
    type V = Map<Seq<char>, i64>;

    closed spec fn view(&self) -> Map<Seq<char>, i64> {
        map_of(self.marks@)
    }
}

impl SuppressionWindow {
    /// Internal consistency: each identifier carries at most one mark.
    pub closed spec fn wf(&self) -> bool {
        unique_marks(self.marks@)
    }

    /// The window's time-to-live, in milliseconds.
    pub closed spec fn ttl(&self) -> u64 {
        self.ttl_millis
    }

    /// Builds an empty window with the given time-to-live, in milliseconds.
    pub fn new(ttl_millis: u64) -> (w: SuppressionWindow)
        ensures
            w.wf(),
            w@ == Map::<Seq<char>, i64>::empty(),
            w.ttl() == ttl_millis,
    {
        SuppressionWindow { ttl_millis, marks: Vec::new() }
    }

    /// Whether `identifier` carries a mark younger than the time-to-live at
    /// instant `now`.
    pub fn is_suppressed(&self, identifier: &String, now: i64) -> (r: bool)
        requires
            self.wf(),
        ensures
            r == spec_suppressed(self@, identifier@, now, self.ttl()),
    {
        let mut i: usize = 0;
        while i < self.marks.len()
            invariant
                self.wf(),
                i <= self.marks@.len(),
                forall|j: int| 0 <= j < i ==> self.marks@[j].identifier@ != identifier@,
            decreases self.marks@.len() - i,
        {
            if self.marks[i].identifier == *identifier {
                let at = self.marks[i].at;
                proof {
                    lemma_map_of_index(self.marks@, i as int);
                }
                return (now as i128) - (at as i128) < (self.ttl_millis as i128);
            }
            i += 1;
        }
        proof {
            lemma_map_of_absent(self.marks@, identifier@);
        }
        false
    }

    /// Records, or refreshes, the mark of `identifier` at instant `now`.
    pub fn mark(&mut self, identifier: &String, now: i64)
        requires
            old(self).wf(),
        ensures
            final(self).wf(),
            final(self).ttl() == old(self).ttl(),
            final(self)@ == old(self)@.insert(identifier@, now),
    {
        let mut i: usize = 0;
        while i < self.marks.len()
            invariant
                *self == *old(self),
                self.wf(),
                i <= self.marks@.len(),
                forall|j: int| 0 <= j < i ==> self.marks@[j].identifier@ != identifier@,
            decreases self.marks@.len() - i,
        {
            if self.marks[i].identifier == *identifier {
                let fresh = Mark { identifier: identifier.clone(), at: now };
                proof {
                    lemma_map_of_update(self.marks@, i as int, fresh);
                }
                self.marks[i] = fresh;
                assert(forall|p: int, q: int|
                    0 <= p < self.marks@.len() && 0 <= q < self.marks@.len() && p != q
                        ==> self.marks@[p].identifier@ != self.marks@[q].identifier@);
                return;
            }
            i += 1;
        }
        proof {
            lemma_map_of_absent(self.marks@, identifier@);
        }
        self.marks.push(Mark { identifier: identifier.clone(), at: now });
        proof {
            assert(self.marks@.drop_last() =~= old(self).marks@);
        }
    }

    /// Removes every mark whose age at instant `now` has reached the
    /// time-to-live.  Marks younger than the time-to-live stay, unchanged.
    pub fn evict_expired(&mut self, now: i64)
        requires
            old(self).wf(),
        ensures
            final(self).wf(),
            final(self).ttl() == old(self).ttl(),
            forall|id: Seq<char>|
                final(self)@.contains_key(id) <==> (old(self)@.contains_key(id) && now - old(
                    self,
                )@[id] < old(self).ttl() as int),
            forall|id: Seq<char>|
                final(self)@.contains_key(id) ==> final(self)@[id] == old(self)@[id],
    {
        let mut kept: Vec<Mark> = Vec::new();
        let mut i: usize = 0;
        while i < self.marks.len()
            invariant
                *self == *old(self),
                self.wf(),
                i <= self.marks@.len(),
                unique_marks(kept@),
                forall|id: Seq<char>|
                    map_of(kept@).contains_key(id) <==> (exists|k: int|
                        0 <= k < i && self.marks@[k].identifier@ == id && now - self.marks@[k].at
                            < self.ttl_millis as int),
                forall|id: Seq<char>|
                    map_of(kept@).contains_key(id) ==> map_of(kept@)[id] == map_of(self.marks@)[id],
            decreases self.marks@.len() - i,
        {
            let live = (now as i128) - (self.marks[i].at as i128) < (self.ttl_millis as i128);
            let ghost cur = self.marks@[i as int].identifier@;
            if live {
                let ghost before = kept@;
                proof {
                    if exists|j: int| 0 <= j < before.len() && before[j].identifier@ == cur {
                        let j = choose|j: int|
                            0 <= j < before.len() && before[j].identifier@ == cur;
                        lemma_map_of_index(before, j);
                        assert(map_of(before).contains_key(cur));
                        let k = choose|k: int|
                            0 <= k < i && self.marks@[k].identifier@ == cur && now
                                - self.marks@[k].at < self.ttl_millis as int;
                        assert(false);
                    }
                }
                kept.push(Mark { identifier: self.marks[i].identifier.clone(), at: self.marks[i].at });
                proof {
                    assert(kept@.drop_last() =~= before);
                    assert(map_of(kept@) == map_of(before).insert(cur, self.marks@[i as int].at));
                    lemma_map_of_index(self.marks@, i as int);
                    assert forall|id: Seq<char>| map_of(kept@).contains_key(id) implies (exists|
                        k: int,
                    |
                        0 <= k < i + 1 && self.marks@[k].identifier@ == id && now
                            - self.marks@[k].at < self.ttl_millis as int) by {
                        if id == cur {
                            assert(0 <= i < i + 1 && self.marks@[i as int].identifier@ == id && now
                                - self.marks@[i as int].at < self.ttl_millis as int);
                        } else {
                            assert(map_of(before).contains_key(id));
                        }
                    }
                    assert forall|id: Seq<char>|
                        (exists|k: int|
                            0 <= k < i + 1 && self.marks@[k].identifier@ == id && now
                                - self.marks@[k].at < self.ttl_millis as int) implies map_of(
                        kept@,
                    ).contains_key(id) by {}
                }
            }
            i += 1;
        }
        proof {
            if exists|id: Seq<char>|
                map_of(kept@).contains_key(id) && !map_of(self.marks@).contains_key(id) {
                let id = choose|id: Seq<char>|
                    map_of(kept@).contains_key(id) && !map_of(self.marks@).contains_key(id);
                let k = choose|k: int|
                    0 <= k < self.marks@.len() && self.marks@[k].identifier@ == id && now
                        - self.marks@[k].at < self.ttl_millis as int;
                lemma_map_of_index(self.marks@, k);
                assert(false);
            }
            assert(forall|id: Seq<char>|
                map_of(self.marks@).contains_key(id) ==> exists|k: int|
                    0 <= k < self.marks@.len() && self.marks@[k].identifier@ == id) by {
                assert(forall|id: Seq<char>|
                    !(exists|k: int| 0 <= k < self.marks@.len() && self.marks@[k].identifier@ == id)
                        ==> !map_of(self.marks@).contains_key(id)) by {
                    assert forall|id: Seq<char>|
                        !(exists|k: int|
                            0 <= k < self.marks@.len() && self.marks@[k].identifier@ == id)
                        implies !map_of(self.marks@).contains_key(id) by {
                        lemma_map_of_absent(self.marks@, id);
                    }
                }
            }
            assert(forall|k: int|
                0 <= k < self.marks@.len() ==> map_of(self.marks@)[self.marks@[k].identifier@]
                    == self.marks@[k].at) by {
                assert forall|k: int| 0 <= k < self.marks@.len()
                    implies map_of(self.marks@)[self.marks@[k].identifier@] == self.marks@[k].at by {
                    lemma_map_of_index(self.marks@, k);
                }
            }
        }
        self.marks = kept;
    }
}

} // verus!
