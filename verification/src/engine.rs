//! The poll cycle engine: the decisions of one polling pass, as pure,
//! verified functions.
//!
//! For each alertable entry the engine decides whether to issue a check
//! (suppression), whether a fetched result is a new live session (the
//! stored session start differs), what to write back and what to dispatch,
//! and how the cycle paces its requests.  The surrounding loop performs the
//! outside work — the HTTP call, the sleeps, the handler invocation — and
//! hands the engine plain values; the engine's verdicts come back as a
//! trace of [`Act`] values, in the exact order they are to be performed.

use vstd::prelude::*;

use crate::client::{Client, StreamData, PACING_FLOOR_MILLIS};
use crate::error::{
    classify_task, classify_transport, persistence_failure, spec_classify_task,
    spec_classify_transport, spec_persistence_failure, Failure, TaskFlags, TransportFlags,
};
use crate::suppression::{spec_suppressed, SuppressionWindow};
use crate::watchlist::{spec_alertable, spec_contains, spec_update, WatchEntry};

verus! {

/// What one status check came back with, as plain values: the entity is
/// offline, it is live with the given session record, the transport failed
/// with the given facts, or the check's own execution failed.
#[derive(Debug)]
pub enum FetchOutcome {
    Offline,
    Live(StreamData),
    Transport(TransportFlags),
    Task(TaskFlags),
}

/// An event handed to the caller-registered dispatcher.
#[derive(Debug)]
pub enum Event {
    /// The entity started a new live session.
    WentLive { identifier: String, status: StreamData },
    /// A check or a write-back failed.
    Failed { failure: Failure },
}

/// The engine's verdict on one fetched result.
#[derive(Debug)]
pub enum CheckDecision {
    /// Offline, or the same session as already recorded: no event, no
    /// write-back.
    Silent,
    /// A new live session: persist its start, then dispatch.
    NewLive { status: StreamData },
    /// A failed check: dispatch the classified failure.
    Report { failure: Failure },
}

/// One engine action, in the order it is to be performed within a cycle:
/// issue the status request for an entity, sleep the fixed inter-request
/// pause, write a session start back to the store, or dispatch an event.
/// Write and dispatch actions name the entity whose check caused them.
#[derive(Debug)]
pub enum Act {
    Request { identifier: String },
    Pause { millis: u64 },
    Write { identifier: String, started_at: i64 },
    Dispatch { identifier: String, event: Event },
}

/// The verdict on one fetched result: a live session whose start differs
/// from the stored one is new; one whose start matches is the steady state
/// and stays silent, as does an offline entity; failures are classified.
pub open spec fn spec_decide(entry: WatchEntry, outcome: FetchOutcome) -> CheckDecision {
    match outcome {
        FetchOutcome::Offline => CheckDecision::Silent,
        FetchOutcome::Live(status) => {
            if status.started_at == entry.last_live_started_at {
                CheckDecision::Silent
            } else {
                CheckDecision::NewLive { status }
            }
        },
        FetchOutcome::Transport(f) => CheckDecision::Report { failure: spec_classify_transport(f) },
        FetchOutcome::Task(t) => CheckDecision::Report { failure: spec_classify_task(t) },
    }
}

/// Decides what one fetched result means for the given entry.
pub fn decide_check(entry: &WatchEntry, outcome: FetchOutcome) -> (d: CheckDecision)
    ensures
        d == spec_decide(*entry, outcome),
{
    match outcome {
        FetchOutcome::Offline => CheckDecision::Silent,
        FetchOutcome::Live(status) => {
            if status.started_at == entry.last_live_started_at {
                CheckDecision::Silent
            } else {
                CheckDecision::NewLive { status }
            }
        },
        FetchOutcome::Transport(f) => CheckDecision::Report { failure: classify_transport(f) },
        FetchOutcome::Task(t) => CheckDecision::Report { failure: classify_task(t) },
    }
}

/// The event a confirmed new live session resolves to once the write-back
/// has been attempted: the live notification if the write took effect, a
/// persistence failure otherwise — never both.
pub open spec fn spec_resolve_new_live(identifier: String, status: StreamData, write_ok: bool) -> Event {
    if write_ok {
        Event::WentLive { identifier, status }
    } else {
        Event::Failed { failure: spec_persistence_failure() }
    }
}

/// Resolves a confirmed new live session against the write-back result.
pub fn resolve_new_live(identifier: String, status: StreamData, write_ok: bool) -> (ev: Event)
    ensures
        ev == spec_resolve_new_live(identifier, status, write_ok),
{
    if write_ok {
        Event::WentLive { identifier, status }
    } else {
        Event::Failed { failure: persistence_failure() }
    }
}

/// The actions one non-suppressed entry contributes to the cycle trace:
/// its status request first, then what the verdict demands, then the
/// mandatory inter-request pause — also on failure, to avoid burst-retrying
/// into a rate limit.
pub open spec fn spec_entry_acts(entry: WatchEntry, outcome: FetchOutcome, write_ok: bool) -> Seq<
    Act,
> {
    let request = Act::Request { identifier: entry.identifier };
    let pause = Act::Pause { millis: PACING_FLOOR_MILLIS };
    match spec_decide(entry, outcome) {
        CheckDecision::Silent => seq![request, pause],
        CheckDecision::NewLive { status } => seq![
            request,
            Act::Write { identifier: entry.identifier, started_at: status.started_at },
            Act::Dispatch {
                identifier: entry.identifier,
                event: spec_resolve_new_live(entry.identifier, status, write_ok),
            },
            pause,
        ],
        CheckDecision::Report { failure } => seq![
            request,
            Act::Dispatch { identifier: entry.identifier, event: Event::Failed { failure } },
            pause,
        ],
    }
}

/// One whole cycle over a snapshot, as a pure function: the action trace
/// and the suppression window state it leaves behind.  Entries are visited
/// in snapshot order; a suppressed entry contributes nothing and its
/// supplied outcome is unused; every other entry is marked in the window
/// and contributes [`spec_entry_acts`].
pub open spec fn spec_cycle(
    entries: Seq<WatchEntry>,
    window: Map<Seq<char>, i64>,
    now: i64,
    ttl: u64,
    outcomes: Seq<FetchOutcome>,
    write_oks: Seq<bool>,
) -> (Seq<Act>, Map<Seq<char>, i64>)
    decreases entries.len(),
{
    if entries.len() == 0 {
        (Seq::<Act>::empty(), window)
    } else {
        let entry = entries[0];
        if spec_suppressed(window, entry.identifier@, now, ttl) {
            spec_cycle(entries.skip(1), window, now, ttl, outcomes.skip(1), write_oks.skip(1))
        } else {
            let stepped = spec_cycle(
                entries.skip(1),
                window.insert(entry.identifier@, now),
                now,
                ttl,
                outcomes.skip(1),
                write_oks.skip(1),
            );
            (spec_entry_acts(entry, outcomes[0], write_oks[0]) + stepped.0, stepped.1)
        }
    }
}

/// Runs one cycle over the given snapshot: walks the entries in order,
/// consults and refreshes the suppression window, and decides each supplied
/// outcome.  `write_oks[i]` says whether the write-back for entry `i` would
/// take effect, for callers whose persistence collaborator can fail.  The
/// returned trace is exactly [`spec_cycle`] of the inputs.
pub fn run_cycle_actions(
    entries: &Vec<WatchEntry>,
    window: &mut SuppressionWindow,
    now: i64,
    mut outcomes: Vec<FetchOutcome>,
    write_oks: &Vec<bool>,
) -> (trace: Vec<Act>)
    requires
        old(window).wf(),
        outcomes@.len() == entries@.len(),
        write_oks@.len() == entries@.len(),
    ensures
        final(window).wf(),
        final(window).ttl() == old(window).ttl(),
        trace@ == spec_cycle(
            entries@,
            old(window)@,
            now,
            old(window).ttl(),
            outcomes@,
            write_oks@,
        ).0,
        final(window)@ == spec_cycle(
            entries@,
            old(window)@,
            now,
            old(window).ttl(),
            outcomes@,
            write_oks@,
        ).1,
{
    let ghost outs0 = outcomes@;
    let ghost w0 = window@;
    let ghost ttl = window.ttl();
    let mut trace: Vec<Act> = Vec::new();
    let mut i: usize = 0;
    proof {
        assert(entries@.skip(0) =~= entries@);
        assert(outs0.skip(0) =~= outs0);
        assert(write_oks@.skip(0) =~= write_oks@);
        assert(Seq::<Act>::empty() + spec_cycle(entries@, w0, now, ttl, outs0, write_oks@).0
            =~= spec_cycle(entries@, w0, now, ttl, outs0, write_oks@).0);
    }
    while i < entries.len()
        invariant
            window.wf(),
            window.ttl() == ttl,
            ttl == old(window).ttl(),
            w0 == old(window)@,
            i <= entries@.len(),
            outs0.len() == entries@.len(),
            write_oks@.len() == entries@.len(),
            outcomes@ == outs0.skip(i as int),
            spec_cycle(entries@, w0, now, ttl, outs0, write_oks@).0 == trace@ + spec_cycle(
                entries@.skip(i as int),
                window@,
                now,
                ttl,
                outs0.skip(i as int),
                write_oks@.skip(i as int),
            ).0,
            spec_cycle(entries@, w0, now, ttl, outs0, write_oks@).1 == spec_cycle(
                entries@.skip(i as int),
                window@,
                now,
                ttl,
                outs0.skip(i as int),
                write_oks@.skip(i as int),
            ).1,
        decreases entries@.len() - i,
    {
        let ghost w_cur = window@;
        let e = &entries[i];
        let outcome = outcomes.remove(0);
        proof {
            assert(entries@.skip(i as int)[0] == entries@[i as int]);
            assert(outs0.skip(i as int)[0] == outs0[i as int]);
            assert(write_oks@.skip(i as int)[0] == write_oks@[i as int]);
            assert(entries@.skip(i as int).skip(1) =~= entries@.skip(i as int + 1));
            assert(outs0.skip(i as int).skip(1) =~= outs0.skip(i as int + 1));
            assert(write_oks@.skip(i as int).skip(1) =~= write_oks@.skip(i as int + 1));
            assert(outcomes@ =~= outs0.skip(i as int + 1));
        }
        if window.is_suppressed(&e.identifier, now) {
        } else {
            window.mark(&e.identifier, now);
            let ghost trace_before = trace@;
            trace.push(Act::Request { identifier: e.identifier.clone() });
            let d = decide_check(e, outcome);
            match d {
                CheckDecision::Silent => {},
                CheckDecision::NewLive { status } => {
                    let ok = write_oks[i];
                    trace.push(
                        Act::Write {
                            identifier: e.identifier.clone(),
                            started_at: status.started_at,
                        },
                    );
                    let ev = resolve_new_live(e.identifier.clone(), status, ok);
                    trace.push(Act::Dispatch { identifier: e.identifier.clone(), event: ev });
                },
                CheckDecision::Report { failure } => {
                    trace.push(
                        Act::Dispatch {
                            identifier: e.identifier.clone(),
                            event: Event::Failed { failure },
                        },
                    );
                },
            }
            trace.push(Act::Pause { millis: PACING_FLOOR_MILLIS });
            proof {
                assert(trace@ =~= trace_before + spec_entry_acts(
                    entries@[i as int],
                    outs0[i as int],
                    write_oks@[i as int],
                ));
                assert(spec_cycle(entries@, w0, now, ttl, outs0, write_oks@).0 =~= trace@
                    + spec_cycle(
                    entries@.skip(i as int + 1),
                    window@,
                    now,
                    ttl,
                    outs0.skip(i as int + 1),
                    write_oks@.skip(i as int + 1),
                ).0);
            }
        }
        i += 1;
    }
    proof {
        assert(entries@.skip(entries@.len() as int) =~= Seq::<WatchEntry>::empty());
        assert(trace@ + Seq::<Act>::empty() =~= trace@);
    }
    trace
}

/// The watch-list after the write-back actions of a trace have been
/// applied, in trace order.
pub open spec fn spec_apply_writes(s: Seq<WatchEntry>, tr: Seq<Act>) -> Seq<WatchEntry>
    decreases tr.len(),
{
    if tr.len() == 0 {
        s
    } else {
        let rest = spec_apply_writes(s, tr.drop_last());
        match tr.last() {
            Act::Write { identifier, started_at } => spec_update(rest, identifier@, started_at),
            _ => rest,
        }
    }
}

impl Client {
    /// Step one for an entry: consult the suppression window at instant
    /// `now` and, if the entity is not suppressed, refresh its mark.
    /// Returns whether a status check is to be issued.
    pub fn should_check(&mut self, identifier: &String, now: i64) -> (go: bool)
        requires
            old(self).window.wf(),
        ensures
            final(self).client_id == old(self).client_id,
            final(self).token == old(self).token,
            final(self).delay_millis == old(self).delay_millis,
            final(self).store == old(self).store,
            final(self).window.wf(),
            final(self).window.ttl() == old(self).window.ttl(),
            go == !spec_suppressed(old(self).window@, identifier@, now, old(self).window.ttl()),
            final(self).window@ == (if go {
                old(self).window@.insert(identifier@, now)
            } else {
                old(self).window@
            }),
    {
        if self.window.is_suppressed(identifier, now) {
            false
        } else {
            self.window.mark(identifier, now);
            true
        }
    }

    /// Step two for an entry: settle a fetched result.  A new live session
    /// is written back to the store before anything is dispatched, and the
    /// live notification is returned only if the write took effect; the
    /// steady state returns nothing; failures come back classified.  The
    /// returned event, if any, is the caller's to dispatch.
    pub fn settle_check(&mut self, entry: &WatchEntry, outcome: FetchOutcome) -> (ev: Option<
        Event,
    >)
        ensures
            final(self).client_id == old(self).client_id,
            final(self).token == old(self).token,
            final(self).delay_millis == old(self).delay_millis,
            final(self).window == old(self).window,
            match spec_decide(*entry, outcome) {
                CheckDecision::Silent => ev is None && final(self).store@ == old(self).store@,
                CheckDecision::NewLive { status } => {
                    &&& final(self).store@ == spec_update(
                        old(self).store@,
                        entry.identifier@,
                        status.started_at,
                    )
                    &&& ev == Some(
                        spec_resolve_new_live(
                            entry.identifier,
                            status,
                            spec_contains(old(self).store@, entry.identifier@),
                        ),
                    )
                },
                CheckDecision::Report { failure } => ev == Some(Event::Failed { failure })
                    && final(self).store@ == old(self).store@,
            },
    {
        let decision = decide_check(entry, outcome);
        match decision {
            CheckDecision::Silent => None,
            CheckDecision::NewLive { status } => {
                let ok = self.store.update_last_live_started_at(
                    &entry.identifier,
                    status.started_at,
                );
                Some(resolve_new_live(entry.identifier.clone(), status, ok))
            },
            CheckDecision::Report { failure } => Some(Event::Failed { failure }),
        }
    }

    /// One full cycle against this client's own store and window: pulls the
    /// alertable snapshot, decides each supplied outcome, and applies every
    /// write-back action to the store in trace order.  The in-memory store
    /// accepts every write for a watched entity, so the cycle runs with
    /// every per-entry write result true.
    pub fn run_cycle(&mut self, now: i64, outcomes: Vec<FetchOutcome>) -> (trace: Vec<Act>)
        requires
            old(self).window.wf(),
            outcomes@.len() == spec_alertable(old(self).store@).len(),
        ensures
            final(self).client_id == old(self).client_id,
            final(self).token == old(self).token,
            final(self).delay_millis == old(self).delay_millis,
            final(self).window.wf(),
            final(self).window.ttl() == old(self).window.ttl(),
            ({
                let entries = spec_alertable(old(self).store@);
                let oks = Seq::<bool>::new(entries.len(), |k: int| true);
                let stepped = spec_cycle(
                    entries,
                    old(self).window@,
                    now,
                    old(self).window.ttl(),
                    outcomes@,
                    oks,
                );
                &&& trace@ == stepped.0
                &&& final(self).window@ == stepped.1
                &&& final(self).store@ == spec_apply_writes(old(self).store@, trace@)
            }),
    {
        let entries = self.store.list_alertable();
        let n = entries.len();
        let mut write_oks: Vec<bool> = Vec::new();
        let mut k: usize = 0;
        while k < n
            invariant
                k <= n,
                write_oks@ == Seq::<bool>::new(k as nat, |j: int| true),
            decreases n - k,
        {
            write_oks.push(true);
            proof {
                assert(write_oks@ =~= Seq::<bool>::new((k + 1) as nat, |j: int| true));
            }
            k += 1;
        }
        let trace = run_cycle_actions(&entries, &mut self.window, now, outcomes, &write_oks);
        let ghost mid_window = self.window;
        let mut a: usize = 0;
        proof {
            assert(trace@.subrange(0, 0) =~= Seq::<Act>::empty());
        }
        while a < trace.len()
            invariant
                a <= trace@.len(),
                self.window == mid_window,
                self.client_id == old(self).client_id,
                self.token == old(self).token,
                self.delay_millis == old(self).delay_millis,
                self.store@ == spec_apply_writes(old(self).store@, trace@.subrange(0, a as int)),
            decreases trace@.len() - a,
        {
            proof {
                assert(trace@.subrange(0, a as int + 1).drop_last() =~= trace@.subrange(
                    0,
                    a as int,
                ));
                assert(trace@.subrange(0, a as int + 1).last() == trace@[a as int]);
            }
            match &trace[a] {
                Act::Write { identifier, started_at } => {
                    let _ = self.store.update_last_live_started_at(identifier, *started_at);
                },
                _ => {},
            }
            a += 1;
        }
        proof {
            assert(trace@.subrange(0, trace@.len() as int) =~= trace@);
        }
        trace
    }
}

} // verus!
