//! The watch-list: the entities eligible for live-status polling, each with
//! the start instant of its last-known live session.
//!
//! [`WatchListStore`] is an in-memory watch-list source and persistence
//! collaborator in one: the engine pulls the alertable snapshot from it with
//! [`WatchListStore::list_alertable`] and writes confirmed new session starts
//! back with [`WatchListStore::update_last_live_started_at`].  Entities whose
//! alerts are disabled are filtered out at this boundary and never reach the
//! poll cycle.

use vstd::prelude::*;

verus! {

/// One watched entity: its stable identifier, whether alerts are enabled for
/// it, and the start instant (milliseconds) of its last-known live session.
pub struct WatchEntry {
    pub identifier: String,
    pub alerts_enabled: bool,
    pub last_live_started_at: i64,
}

impl Clone for WatchEntry {
    fn clone(&self) -> (r: Self)
        ensures
            r == *self,
    {
        WatchEntry {
            identifier: self.identifier.clone(),
            alerts_enabled: self.alerts_enabled,
            last_live_started_at: self.last_live_started_at,
        }
    }
}

/// Whether no two entries share an identifier.
pub open spec fn unique_identifiers(s: Seq<WatchEntry>) -> bool {
    forall|i: int, j: int|
        0 <= i < s.len() && 0 <= j < s.len() && i != j ==> s[i].identifier@ != s[j].identifier@
}

/// The predicate the alertable listing keeps: alerts are enabled.
pub open spec fn alert_pred() -> spec_fn(WatchEntry) -> bool {
    |e: WatchEntry| e.alerts_enabled
}

/// The alertable part of a watch-list: entries with alerts enabled, in
/// order.
pub open spec fn spec_alertable(s: Seq<WatchEntry>) -> Seq<WatchEntry> {
    s.filter(alert_pred())
}

/// Whether some entry carries the identifier `id`.
pub open spec fn spec_contains(s: Seq<WatchEntry>, id: Seq<char>) -> bool {
    exists|i: int| 0 <= i < s.len() && s[i].identifier@ == id
}

/// The watch-list after recording that the entity `id` was last seen live at
/// `t`: every entry carrying `id` has its session start replaced, all others
/// are untouched.
pub open spec fn spec_update(s: Seq<WatchEntry>, id: Seq<char>, t: i64) -> Seq<WatchEntry> {
    Seq::new(
        s.len(),
        |i: int|
            if s[i].identifier@ == id {
                WatchEntry { last_live_started_at: t, ..s[i] }
            } else {
                s[i]
            },
    )
}

/// An in-memory watch-list store, acting both as the watch-list source and
/// as the persistence collaborator for last-seen session starts.
pub struct WatchListStore {
    entries: Vec<WatchEntry>,
}

impl View for WatchListStore {
    type V = Seq<WatchEntry>;

    closed spec fn view(&self) -> Seq<WatchEntry> {
        self.entries@
    }
}

/// Whether the given entries all carry distinct identifiers; the exec
/// counterpart of [`unique_identifiers`].
pub fn has_unique_identifiers(entries: &Vec<WatchEntry>) -> (r: bool)
    ensures
        r == unique_identifiers(entries@),
{
    let n = entries.len();
    let mut i: usize = 0;
    while i < n
        invariant
            n == entries@.len(),
            i <= n,
            forall|p: int, q: int|
                0 <= p < i && 0 <= q < n && p != q ==> entries@[p].identifier@
                    != entries@[q].identifier@,
        decreases n - i,
    {
        let mut j: usize = i + 1;
        while j < n
            invariant
                n == entries@.len(),
                i < n,
                i + 1 <= j <= n,
                forall|q: int| i < q < j ==> entries@[i as int].identifier@ != entries@[q].identifier@,
            decreases n - j,
        {
            if entries[i].identifier == entries[j].identifier {
                return false;
            }
            j += 1;
        }
        i += 1;
    }
    true
}

impl WatchListStore {
    /// Builds a store over the given entries.  Identifier uniqueness is the
    /// caller's to establish; [`has_unique_identifiers`] checks it.
    pub fn new(entries: Vec<WatchEntry>) -> (s: WatchListStore)
        ensures
            s@ == entries@,
    {
        WatchListStore { entries }
    }

    /// The number of watched entries, enabled or not.
    pub fn len(&self) -> (n: usize)
        ensures
            n == self@.len(),
    {
        self.entries.len()
    }

    /// The current snapshot of entries whose alerts are enabled, in stored
    /// order.  Entities with alerts disabled never appear here, so they never
    /// reach the poll cycle.
    pub fn list_alertable(&self) -> (r: Vec<WatchEntry>)
        ensures
            r@ == spec_alertable(self@),
    {
        let mut out: Vec<WatchEntry> = Vec::new();
        let mut i: usize = 0;
        while i < self.entries.len()
            invariant
                i <= self.entries@.len(),
                out@ == spec_alertable(self.entries@.subrange(0, i as int)),
            decreases self.entries@.len() - i,
        {
            proof {
                reveal(Seq::filter);
                assert(self.entries@.subrange(0, i as int + 1).drop_last() =~= self.entries@.subrange(
                    0,
                    i as int,
                ));
                assert(self.entries@.subrange(0, i as int + 1).last() == self.entries@[i as int]);
            }
            if self.entries[i].alerts_enabled {
                let e = self.entries[i].clone();
                out.push(e);
            }
            i += 1;
        }
        proof {
            assert(self.entries@.subrange(0, self.entries@.len() as int) =~= self.entries@);
        }
        out
    }

    /// Records that the entity `identifier` was last seen live at
    /// `started_at`.  Returns whether the write took effect, which it does
    /// exactly when the identifier is watched.
    pub fn update_last_live_started_at(&mut self, identifier: &String, started_at: i64) -> (ok:
        bool)
        ensures
            final(self)@ == spec_update(old(self)@, identifier@, started_at),
            ok == spec_contains(old(self)@, identifier@),
    {
        let mut found = false;
        let mut i: usize = 0;
        while i < self.entries.len()
            invariant
                i <= self.entries@.len(),
                self.entries@.len() == old(self).entries@.len(),
                forall|j: int| i <= j < self.entries@.len() ==> self.entries@[j] == old(self).entries@[j],
                forall|j: int|
                    0 <= j < i ==> self.entries@[j] == (if old(self).entries@[j].identifier@
                        == identifier@ {
                        WatchEntry { last_live_started_at: started_at, ..old(self).entries@[j] }
                    } else {
                        old(self).entries@[j]
                    }),
                found == (exists|j: int|
                    0 <= j < i && old(self).entries@[j].identifier@ == identifier@),
            decreases self.entries@.len() - i,
        {
            if self.entries[i].identifier == *identifier {
                let id_kept = self.entries[i].identifier.clone();
                let enabled = self.entries[i].alerts_enabled;
                self.entries[i] = WatchEntry {
                    identifier: id_kept,
                    alerts_enabled: enabled,
                    last_live_started_at: started_at,
                };
                found = true;
            }
            i += 1;
        }
        proof {
            assert(self.entries@ =~= spec_update(old(self).entries@, identifier@, started_at));
        }
        found
    }
}

/// Law: an entity whose alerts are disabled never appears in the alertable
/// listing, which is the only path into the poll cycle.
pub proof fn lemma_alertable_only_enabled(s: Seq<WatchEntry>)
    ensures
        forall|j: int|
            0 <= j < spec_alertable(s).len() ==> (#[trigger] spec_alertable(s)[j]).alerts_enabled,
{
    assert forall|j: int| 0 <= j < spec_alertable(s).len() implies (#[trigger] spec_alertable(
        s,
    )[j]).alerts_enabled by {
        s.lemma_filter_pred(alert_pred(), j);
    }
}

/// Law: every entry of the alertable listing is a watched entry.
pub proof fn lemma_alertable_is_watched(s: Seq<WatchEntry>)
    ensures
        forall|j: int|
            0 <= j < spec_alertable(s).len() ==> spec_contains(
                s,
                (#[trigger] spec_alertable(s)[j]).identifier@,
            ),
{
    assert forall|j: int| 0 <= j < spec_alertable(s).len() implies spec_contains(
        s,
        (#[trigger] spec_alertable(s)[j]).identifier@,
    ) by {
        let e = spec_alertable(s)[j];
        assert(spec_alertable(s).contains(e));
        s.lemma_filter_contains_rev(alert_pred(), e);
        let k = choose|k: int| 0 <= k < s.len() && s[k] == e;
        assert(s[k].identifier@ == e.identifier@);
    }
}

/// Law: filtering to the alertable entries keeps identifiers unique.
pub proof fn lemma_alertable_unique(s: Seq<WatchEntry>)
    requires
        unique_identifiers(s),
    ensures
        unique_identifiers(spec_alertable(s)),
    decreases s.len(),
{
    reveal(Seq::filter);
    if s.len() > 0 {
        let rest = s.drop_last();
        let last = s.last();
        assert(unique_identifiers(rest));
        lemma_alertable_unique(rest);
        let fd = spec_alertable(rest);
        if alert_pred()(last) {
            assert(spec_alertable(s) == fd.push(last));
            assert forall|j: int| 0 <= j < fd.len() implies (#[trigger] fd[j]).identifier@
                != last.identifier@ by {
                assert(fd.contains(fd[j]));
                rest.lemma_filter_contains_rev(alert_pred(), fd[j]);
                let k = choose|k: int| 0 <= k < rest.len() && rest[k] == fd[j];
                assert(s[k] == fd[j]);
                assert(s[k].identifier@ != s[s.len() - 1].identifier@);
            }
            assert(unique_identifiers(fd.push(last)));
        } else {
            assert(spec_alertable(s) == fd);
        }
    }
}

/// Law: writing a session start `t` for a watched, alert-enabled entity and
/// immediately re-fetching the alertable listing yields an entry for that
/// entity carrying `t` (the write/re-read round trip).
pub proof fn lemma_update_round_trip(s: Seq<WatchEntry>, id: Seq<char>, t: i64, i: int)
    requires
        0 <= i < s.len(),
        s[i].identifier@ == id,
        s[i].alerts_enabled,
    ensures
        exists|j: int|
            0 <= j < spec_alertable(spec_update(s, id, t)).len() && (#[trigger] spec_alertable(
                spec_update(s, id, t),
            )[j]).identifier@ == id && spec_alertable(spec_update(s, id, t))[j].last_live_started_at
                == t,
{
    let u = spec_update(s, id, t);
    assert(u[i].identifier@ == id && u[i].alerts_enabled && u[i].last_live_started_at == t);
    u.lemma_filter_contains(alert_pred(), i);
    let f = spec_alertable(u);
    assert(f.contains(u[i]));
    let j = choose|j: int| 0 <= j < f.len() && f[j] == u[i];
    assert(f[j].identifier@ == id && f[j].last_live_started_at == t);
}

} // verus!
