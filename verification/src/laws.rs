//! Laws of the poll cycle: what a whole cycle trace guarantees for each
//! entity.
//!
//! The engine's [`spec_cycle`] pins the trace down exactly; the lemmas here
//! state the guarantees a reader cares about — a disabled entity is never
//! touched, a suppressed entity causes no request, a new live session is
//! written back exactly once and before its single dispatch, a steady-state
//! check stays silent, and every issued request pays the pacing pause.

use vstd::prelude::*;

use crate::client::PACING_FLOOR_MILLIS;
use crate::engine::{
    spec_apply_writes, spec_cycle, spec_decide, spec_entry_acts, spec_resolve_new_live, Act,
    CheckDecision, Event, FetchOutcome,
};
use crate::suppression::spec_suppressed;
use crate::watchlist::{
    alert_pred, lemma_alertable_only_enabled, lemma_alertable_unique, spec_alertable,
    spec_contains, unique_identifiers, WatchEntry,
};

verus! {

/// Whether an action is attributed to the entity `id`: its request, its
/// write-back, or a dispatch caused by its check.  Pauses belong to no
/// entity.
pub open spec fn act_concerns(a: Act, id: Seq<char>) -> bool {
    match a {
        Act::Request { identifier } => identifier@ == id,
        Act::Pause { .. } => false,
        Act::Write { identifier, .. } => identifier@ == id,
        Act::Dispatch { identifier, .. } => identifier@ == id,
    }
}

/// The subsequence of a trace attributed to the entity `id`.
pub open spec fn acts_for(tr: Seq<Act>, id: Seq<char>) -> Seq<Act>
    decreases tr.len(),
{
    if tr.len() == 0 {
        Seq::empty()
    } else {
        let rest = acts_for(tr.drop_last(), id);
        if act_concerns(tr.last(), id) {
            rest.push(tr.last())
        } else {
            rest
        }
    }
}

/// The number of status requests a trace issues.
pub open spec fn count_requests(tr: Seq<Act>) -> int
    decreases tr.len(),
{
    if tr.len() == 0 {
        0
    } else {
        count_requests(tr.drop_last()) + (if tr.last() is Request {
            1int
        } else {
            0int
        })
    }
}

/// The total time, in milliseconds, a trace spends in pacing pauses.
pub open spec fn total_pause_millis(tr: Seq<Act>) -> int
    decreases tr.len(),
{
    if tr.len() == 0 {
        0
    } else {
        total_pause_millis(tr.drop_last()) + (match tr.last() {
            Act::Pause { millis } => millis as int,
            _ => 0int,
        })
    }
}

/// The actions of one checked entry that are attributed to it: the same as
/// [`spec_entry_acts`] with the unattributed pause left out.
pub open spec fn spec_entry_attributed_acts(
    entry: WatchEntry,
    outcome: FetchOutcome,
    write_ok: bool,
) -> Seq<Act> {
    let request = Act::Request { identifier: entry.identifier };
    match spec_decide(entry, outcome) {
        CheckDecision::Silent => seq![request],
        CheckDecision::NewLive { status } => seq![
            request,
            Act::Write { identifier: entry.identifier, started_at: status.started_at },
            Act::Dispatch {
                identifier: entry.identifier,
                event: spec_resolve_new_live(entry.identifier, status, write_ok),
            },
        ],
        CheckDecision::Report { failure } => seq![
            request,
            Act::Dispatch { identifier: entry.identifier, event: Event::Failed { failure } },
        ],
    }
}

proof fn lemma_acts_for_push(s: Seq<Act>, x: Act, id: Seq<char>)
    ensures
        acts_for(s.push(x), id) == (if act_concerns(x, id) {
            acts_for(s, id).push(x)
        } else {
            acts_for(s, id)
        }),
{
    assert(s.push(x).drop_last() =~= s);
    assert(s.push(x).last() == x);
}

proof fn lemma_acts_for_add(a: Seq<Act>, b: Seq<Act>, id: Seq<char>)
    ensures
        acts_for(a + b, id) == acts_for(a, id) + acts_for(b, id),
    decreases b.len(),
{
    if b.len() == 0 {
        assert(a + b =~= a);
        assert(acts_for(b, id) =~= Seq::<Act>::empty());
        assert(acts_for(a, id) + acts_for(b, id) =~= acts_for(a, id));
    } else {
        lemma_acts_for_add(a, b.drop_last(), id);
        assert((a + b).drop_last() =~= a + b.drop_last());
        assert((a + b).last() == b.last());
        if act_concerns(b.last(), id) {
            assert(acts_for(a, id) + acts_for(b.drop_last(), id).push(b.last()) =~= (acts_for(
                a,
                id,
            ) + acts_for(b.drop_last(), id)).push(b.last()));
        }
    }
}

proof fn lemma_counts_add(a: Seq<Act>, b: Seq<Act>)
    ensures
        count_requests(a + b) == count_requests(a) + count_requests(b),
        total_pause_millis(a + b) == total_pause_millis(a) + total_pause_millis(b),
    decreases b.len(),
{
    if b.len() == 0 {
        assert(a + b =~= a);
    } else {
        lemma_counts_add(a, b.drop_last());
        assert((a + b).drop_last() =~= a + b.drop_last());
        assert((a + b).last() == b.last());
    }
}

proof fn lemma_entry_acts_for(entry: WatchEntry, outcome: FetchOutcome, ok: bool, id: Seq<char>)
    ensures
        acts_for(spec_entry_acts(entry, outcome, ok), id) == (if id == entry.identifier@ {
            spec_entry_attributed_acts(entry, outcome, ok)
        } else {
            Seq::<Act>::empty()
        }),
{
    let request = Act::Request { identifier: entry.identifier };
    let pause = Act::Pause { millis: PACING_FLOOR_MILLIS };
    let empty = Seq::<Act>::empty();
    assert(acts_for(empty, id) =~= empty);
    match spec_decide(entry, outcome) {
        CheckDecision::Silent => {
            assert(spec_entry_acts(entry, outcome, ok) =~= empty.push(request).push(pause));
            lemma_acts_for_push(empty, request, id);
            lemma_acts_for_push(empty.push(request), pause, id);
            if id == entry.identifier@ {
                assert(acts_for(spec_entry_acts(entry, outcome, ok), id) =~= seq![request]);
            } else {
                assert(acts_for(spec_entry_acts(entry, outcome, ok), id) =~= empty);
            }
        },
        CheckDecision::NewLive { status } => {
            let write = Act::Write { identifier: entry.identifier, started_at: status.started_at };
            let dispatch = Act::Dispatch {
                identifier: entry.identifier,
                event: spec_resolve_new_live(entry.identifier, status, ok),
            };
            assert(spec_entry_acts(entry, outcome, ok) =~= empty.push(request).push(write).push(
                dispatch,
            ).push(pause));
            lemma_acts_for_push(empty, request, id);
            lemma_acts_for_push(empty.push(request), write, id);
            lemma_acts_for_push(empty.push(request).push(write), dispatch, id);
            lemma_acts_for_push(empty.push(request).push(write).push(dispatch), pause, id);
            if id == entry.identifier@ {
                assert(acts_for(spec_entry_acts(entry, outcome, ok), id) =~= seq![
                    request,
                    write,
                    dispatch,
                ]);
            } else {
                assert(acts_for(spec_entry_acts(entry, outcome, ok), id) =~= empty);
            }
        },
        CheckDecision::Report { failure } => {
            let dispatch = Act::Dispatch {
                identifier: entry.identifier,
                event: Event::Failed { failure },
            };
            assert(spec_entry_acts(entry, outcome, ok) =~= empty.push(request).push(dispatch).push(
                pause,
            ));
            lemma_acts_for_push(empty, request, id);
            lemma_acts_for_push(empty.push(request), dispatch, id);
            lemma_acts_for_push(empty.push(request).push(dispatch), pause, id);
            if id == entry.identifier@ {
                assert(acts_for(spec_entry_acts(entry, outcome, ok), id) =~= seq![
                    request,
                    dispatch,
                ]);
            } else {
                assert(acts_for(spec_entry_acts(entry, outcome, ok), id) =~= empty);
            }
        },
    }
}

/// Law: with unique identifiers, the part of a cycle trace attributed to an
/// entity is exactly what its own entry contributes — nothing if the entity
/// is unwatched or suppressed at cycle start, its attributed actions
/// otherwise.
pub proof fn lemma_cycle_entity_acts(
    entries: Seq<WatchEntry>,
    w: Map<Seq<char>, i64>,
    now: i64,
    ttl: u64,
    outcomes: Seq<FetchOutcome>,
    oks: Seq<bool>,
    id: Seq<char>,
)
    requires
        unique_identifiers(entries),
        outcomes.len() == entries.len(),
        oks.len() == entries.len(),
    ensures
        forall|i: int|
            0 <= i < entries.len() && entries[i].identifier@ == id ==> acts_for(
                spec_cycle(entries, w, now, ttl, outcomes, oks).0,
                id,
            ) == (if spec_suppressed(w, id, now, ttl) {
                Seq::<Act>::empty()
            } else {
                spec_entry_attributed_acts(entries[i], outcomes[i], oks[i])
            }),
        !spec_contains(entries, id) ==> acts_for(
            spec_cycle(entries, w, now, ttl, outcomes, oks).0,
            id,
        ) == Seq::<Act>::empty(),
    decreases entries.len(),
{
    let tr = spec_cycle(entries, w, now, ttl, outcomes, oks).0;
    if entries.len() == 0 {
        assert(acts_for(tr, id) =~= Seq::<Act>::empty());
    } else {
        let e0 = entries[0];
        let rest_entries = entries.skip(1);
        let rest_outcomes = outcomes.skip(1);
        let rest_oks = oks.skip(1);
        assert(unique_identifiers(rest_entries)) by {
            assert(forall|i: int| 0 <= i < rest_entries.len() ==> rest_entries[i] == entries[i + 1]);
        }
        assert(forall|i: int| 0 <= i < rest_outcomes.len() ==> rest_outcomes[i] == outcomes[i + 1]);
        assert(forall|i: int| 0 <= i < rest_oks.len() ==> rest_oks[i] == oks[i + 1]);
        assert(!spec_contains(entries, id) ==> !spec_contains(rest_entries, id)) by {
            if spec_contains(rest_entries, id) {
                let j = choose|j: int|
                    0 <= j < rest_entries.len() && rest_entries[j].identifier@ == id;
                assert(entries[j + 1].identifier@ == id);
            }
        }
        assert(id == e0.identifier@ ==> !spec_contains(rest_entries, id)) by {
            if id == e0.identifier@ && spec_contains(rest_entries, id) {
                let j = choose|j: int|
                    0 <= j < rest_entries.len() && rest_entries[j].identifier@ == id;
                assert(entries[j + 1].identifier@ == entries[0].identifier@);
                assert(false);
            }
        }
        if spec_suppressed(w, e0.identifier@, now, ttl) {
            lemma_cycle_entity_acts(rest_entries, w, now, ttl, rest_outcomes, rest_oks, id);
            let rest_tr = spec_cycle(rest_entries, w, now, ttl, rest_outcomes, rest_oks).0;
            assert(tr == rest_tr);
            assert forall|i: int|
                0 <= i < entries.len() && entries[i].identifier@ == id implies acts_for(tr, id)
                == (if spec_suppressed(w, id, now, ttl) {
                Seq::<Act>::empty()
            } else {
                spec_entry_attributed_acts(entries[i], outcomes[i], oks[i])
            }) by {
                if i == 0 {
                    assert(id == e0.identifier@);
                    assert(!spec_contains(rest_entries, id));
                    assert(acts_for(rest_tr, id) == Seq::<Act>::empty());
                } else {
                    assert(entries[i].identifier@ != e0.identifier@);
                    assert(rest_entries[i - 1] == entries[i]);
                    assert(rest_entries[i - 1].identifier@ == id);
                    assert(rest_outcomes[i - 1] == outcomes[i]);
                    assert(rest_oks[i - 1] == oks[i]);
                }
            }
        } else {
            let w1 = w.insert(e0.identifier@, now);
            let acts0 = spec_entry_acts(e0, outcomes[0], oks[0]);
            let rest_tr = spec_cycle(rest_entries, w1, now, ttl, rest_outcomes, rest_oks).0;
            assert(tr == acts0 + rest_tr);
            lemma_acts_for_add(acts0, rest_tr, id);
            lemma_entry_acts_for(e0, outcomes[0], oks[0], id);
            lemma_cycle_entity_acts(rest_entries, w1, now, ttl, rest_outcomes, rest_oks, id);
            assert forall|i: int|
                0 <= i < entries.len() && entries[i].identifier@ == id implies acts_for(tr, id)
                == (if spec_suppressed(w, id, now, ttl) {
                Seq::<Act>::empty()
            } else {
                spec_entry_attributed_acts(entries[i], outcomes[i], oks[i])
            }) by {
                if i == 0 {
                    assert(id == e0.identifier@);
                    assert(!spec_contains(rest_entries, id));
                    assert(acts_for(rest_tr, id) == Seq::<Act>::empty());
                    assert(acts_for(acts0, id) == spec_entry_attributed_acts(
                        e0,
                        outcomes[0],
                        oks[0],
                    ));
                    assert(acts_for(tr, id) =~= spec_entry_attributed_acts(
                        e0,
                        outcomes[0],
                        oks[0],
                    ));
                } else {
                    assert(entries[i].identifier@ != e0.identifier@);
                    assert(acts_for(acts0, id) == Seq::<Act>::empty());
                    assert(acts_for(tr, id) =~= acts_for(rest_tr, id));
                    assert(spec_suppressed(w1, id, now, ttl) == spec_suppressed(w, id, now, ttl));
                    assert(rest_entries[i - 1] == entries[i]);
                    assert(rest_entries[i - 1].identifier@ == id);
                    assert(rest_outcomes[i - 1] == outcomes[i]);
                    assert(rest_oks[i - 1] == oks[i]);
                }
            }
            if !spec_contains(entries, id) {
                assert(id != e0.identifier@);
                assert(acts_for(acts0, id) == Seq::<Act>::empty());
                assert(acts_for(rest_tr, id) == Seq::<Act>::empty());
                assert(acts_for(tr, id) =~= Seq::<Act>::empty());
            }
        }
    }
}

/// An empty attributed subsequence means no action of the trace concerns
/// the entity at all.
proof fn lemma_acts_for_none(tr: Seq<Act>, id: Seq<char>)
    requires
        acts_for(tr, id) == Seq::<Act>::empty(),
    ensures
        forall|k: int| 0 <= k < tr.len() ==> !act_concerns(tr[k], id),
    decreases tr.len(),
{
    if tr.len() > 0 {
        if act_concerns(tr.last(), id) {
            assert(acts_for(tr, id).len() > 0);
        }
        lemma_acts_for_none(tr.drop_last(), id);
        assert(forall|k: int| 0 <= k < tr.len() - 1 ==> tr.drop_last()[k] == tr[k]);
    }
}

/// Law: an entity whose alerts are disabled never appears in any action of
/// a cycle run over the alertable listing — no request, no write-back, no
/// dispatch.
pub proof fn lemma_disabled_entity_untouched(
    store: Seq<WatchEntry>,
    w: Map<Seq<char>, i64>,
    now: i64,
    ttl: u64,
    outcomes: Seq<FetchOutcome>,
    oks: Seq<bool>,
    id: Seq<char>,
)
    requires
        unique_identifiers(store),
        outcomes.len() == spec_alertable(store).len(),
        oks.len() == spec_alertable(store).len(),
        forall|i: int|
            0 <= i < store.len() && store[i].identifier@ == id ==> !store[i].alerts_enabled,
    ensures
        forall|k: int|
            0 <= k < spec_cycle(spec_alertable(store), w, now, ttl, outcomes, oks).0.len()
                ==> !act_concerns(
                spec_cycle(spec_alertable(store), w, now, ttl, outcomes, oks).0[k],
                id,
            ),
{
    let entries = spec_alertable(store);
    let tr = spec_cycle(entries, w, now, ttl, outcomes, oks).0;
    lemma_alertable_unique(store);
    if spec_contains(entries, id) {
        let j = choose|j: int| 0 <= j < entries.len() && entries[j].identifier@ == id;
        lemma_alertable_only_enabled(store);
        assert(entries[j].alerts_enabled);
        assert(entries.contains(entries[j]));
        store.lemma_filter_contains_rev(alert_pred(), entries[j]);
        let k = choose|k: int| 0 <= k < store.len() && store[k] == entries[j];
        assert(store[k].identifier@ == id && store[k].alerts_enabled);
        assert(false);
    }
    lemma_cycle_entity_acts(entries, w, now, ttl, outcomes, oks, id);
    lemma_acts_for_none(tr, id);
}

/// Law: an entity suppressed at cycle start is skipped outright — the
/// cycle's trace holds no request (nor any other action) for it.
pub proof fn lemma_suppressed_entity_untouched(
    entries: Seq<WatchEntry>,
    w: Map<Seq<char>, i64>,
    now: i64,
    ttl: u64,
    outcomes: Seq<FetchOutcome>,
    oks: Seq<bool>,
    id: Seq<char>,
)
    requires
        unique_identifiers(entries),
        outcomes.len() == entries.len(),
        oks.len() == entries.len(),
        spec_suppressed(w, id, now, ttl),
    ensures
        forall|k: int|
            0 <= k < spec_cycle(entries, w, now, ttl, outcomes, oks).0.len() ==> !act_concerns(
                spec_cycle(entries, w, now, ttl, outcomes, oks).0[k],
                id,
            ),
{
    let tr = spec_cycle(entries, w, now, ttl, outcomes, oks).0;
    lemma_cycle_entity_acts(entries, w, now, ttl, outcomes, oks, id);
    if spec_contains(entries, id) {
        let i = choose|i: int| 0 <= i < entries.len() && entries[i].identifier@ == id;
        assert(acts_for(tr, id) == Seq::<Act>::empty());
    }
    lemma_acts_for_none(tr, id);
}

/// Law: a checked entity whose fetched session start differs from the
/// stored one gets exactly one write-back and exactly one dispatch, the
/// write-back first; the dispatch is the live notification exactly when the
/// write-back took effect, and the persistence failure otherwise.
pub proof fn lemma_new_live_exactly_once(
    entries: Seq<WatchEntry>,
    w: Map<Seq<char>, i64>,
    now: i64,
    ttl: u64,
    outcomes: Seq<FetchOutcome>,
    oks: Seq<bool>,
    i: int,
)
    requires
        unique_identifiers(entries),
        outcomes.len() == entries.len(),
        oks.len() == entries.len(),
        0 <= i < entries.len(),
        !spec_suppressed(w, entries[i].identifier@, now, ttl),
        outcomes[i] matches FetchOutcome::Live(s) && s.started_at != entries[i].last_live_started_at,
    ensures
        ({
            let evs = acts_for(
                spec_cycle(entries, w, now, ttl, outcomes, oks).0,
                entries[i].identifier@,
            );
            let status = outcomes[i]->Live_0;
            &&& evs.len() == 3
            &&& evs[0] == (Act::Request { identifier: entries[i].identifier })
            &&& evs[1] == (Act::Write {
                identifier: entries[i].identifier,
                started_at: status.started_at,
            })
            &&& evs[2] == (Act::Dispatch {
                identifier: entries[i].identifier,
                event: spec_resolve_new_live(entries[i].identifier, status, oks[i]),
            })
        }),
{
    lemma_cycle_entity_acts(entries, w, now, ttl, outcomes, oks, entries[i].identifier@);
}

/// Law: a checked entity whose fetched result is the steady state — offline
/// or the same session start as stored — causes no write-back and no
/// dispatch; only its request is issued.
pub proof fn lemma_steady_state_silent(
    entries: Seq<WatchEntry>,
    w: Map<Seq<char>, i64>,
    now: i64,
    ttl: u64,
    outcomes: Seq<FetchOutcome>,
    oks: Seq<bool>,
    i: int,
)
    requires
        unique_identifiers(entries),
        outcomes.len() == entries.len(),
        oks.len() == entries.len(),
        0 <= i < entries.len(),
        !spec_suppressed(w, entries[i].identifier@, now, ttl),
        spec_decide(entries[i], outcomes[i]) is Silent,
    ensures
        ({
            let evs = acts_for(
                spec_cycle(entries, w, now, ttl, outcomes, oks).0,
                entries[i].identifier@,
            );
            &&& evs.len() == 1
            &&& evs[0] == (Act::Request { identifier: entries[i].identifier })
        }),
{
    lemma_cycle_entity_acts(entries, w, now, ttl, outcomes, oks, entries[i].identifier@);
}

/// Law: applying the write-back actions of a trace changes only recorded
/// session starts — the number and order of watched entries, their
/// identifiers and their alert flags all stay as they were.
pub proof fn lemma_apply_writes_keeps_shape(s: Seq<WatchEntry>, tr: Seq<Act>)
    ensures
        spec_apply_writes(s, tr).len() == s.len(),
        forall|i: int|
            0 <= i < s.len() ==> (#[trigger] spec_apply_writes(s, tr)[i]).identifier
                == s[i].identifier && spec_apply_writes(s, tr)[i].alerts_enabled
                == s[i].alerts_enabled,
    decreases tr.len(),
{
    if tr.len() > 0 {
        lemma_apply_writes_keeps_shape(s, tr.drop_last());
    }
}

proof fn lemma_counts_push(s: Seq<Act>, x: Act)
    ensures
        count_requests(s.push(x)) == count_requests(s) + (if x is Request {
            1int
        } else {
            0int
        }),
        total_pause_millis(s.push(x)) == total_pause_millis(s) + (match x {
            Act::Pause { millis } => millis as int,
            _ => 0int,
        }),
{
    assert(s.push(x).drop_last() =~= s);
    assert(s.push(x).last() == x);
}

proof fn lemma_entry_acts_counts(entry: WatchEntry, outcome: FetchOutcome, ok: bool)
    ensures
        count_requests(spec_entry_acts(entry, outcome, ok)) == 1,
        total_pause_millis(spec_entry_acts(entry, outcome, ok)) == PACING_FLOOR_MILLIS as int,
{
    let request = Act::Request { identifier: entry.identifier };
    let pause = Act::Pause { millis: PACING_FLOOR_MILLIS };
    let empty = Seq::<Act>::empty();
    assert(count_requests(empty) == 0 && total_pause_millis(empty) == 0);
    match spec_decide(entry, outcome) {
        CheckDecision::Silent => {
            assert(spec_entry_acts(entry, outcome, ok) =~= empty.push(request).push(pause));
            lemma_counts_push(empty, request);
            lemma_counts_push(empty.push(request), pause);
        },
        CheckDecision::NewLive { status } => {
            let write = Act::Write { identifier: entry.identifier, started_at: status.started_at };
            let dispatch = Act::Dispatch {
                identifier: entry.identifier,
                event: spec_resolve_new_live(entry.identifier, status, ok),
            };
            assert(spec_entry_acts(entry, outcome, ok) =~= empty.push(request).push(write).push(
                dispatch,
            ).push(pause));
            lemma_counts_push(empty, request);
            lemma_counts_push(empty.push(request), write);
            lemma_counts_push(empty.push(request).push(write), dispatch);
            lemma_counts_push(empty.push(request).push(write).push(dispatch), pause);
        },
        CheckDecision::Report { failure } => {
            let dispatch = Act::Dispatch {
                identifier: entry.identifier,
                event: Event::Failed { failure },
            };
            assert(spec_entry_acts(entry, outcome, ok) =~= empty.push(request).push(dispatch).push(
                pause,
            ));
            lemma_counts_push(empty, request);
            lemma_counts_push(empty.push(request), dispatch);
            lemma_counts_push(empty.push(request).push(dispatch), pause);
        },
    }
}

/// Law: a cycle paces every request — the trace holds exactly one pacing
/// pause, of the pacing floor, per issued request, so the modeled time a
/// trace spends pausing is the number of requests times the floor; and no
/// more requests are issued than there are entries.
pub proof fn lemma_cycle_pacing(
    entries: Seq<WatchEntry>,
    w: Map<Seq<char>, i64>,
    now: i64,
    ttl: u64,
    outcomes: Seq<FetchOutcome>,
    oks: Seq<bool>,
)
    ensures
        total_pause_millis(spec_cycle(entries, w, now, ttl, outcomes, oks).0) == count_requests(
            spec_cycle(entries, w, now, ttl, outcomes, oks).0,
        ) * (PACING_FLOOR_MILLIS as int),
        count_requests(spec_cycle(entries, w, now, ttl, outcomes, oks).0) <= entries.len(),
    decreases entries.len(),
{
    let tr = spec_cycle(entries, w, now, ttl, outcomes, oks).0;
    if entries.len() == 0 {
    } else {
        let e0 = entries[0];
        let rest_entries = entries.skip(1);
        let rest_outcomes = outcomes.skip(1);
        let rest_oks = oks.skip(1);
        if spec_suppressed(w, e0.identifier@, now, ttl) {
            lemma_cycle_pacing(rest_entries, w, now, ttl, rest_outcomes, rest_oks);
        } else {
            let w1 = w.insert(e0.identifier@, now);
            let acts0 = spec_entry_acts(e0, outcomes[0], oks[0]);
            let rest_tr = spec_cycle(rest_entries, w1, now, ttl, rest_outcomes, rest_oks).0;
            lemma_cycle_pacing(rest_entries, w1, now, ttl, rest_outcomes, rest_oks);
            lemma_counts_add(acts0, rest_tr);
            lemma_entry_acts_counts(e0, outcomes[0], oks[0]);
        }
    }
}

} // verus!
