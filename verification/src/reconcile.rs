//! One stock's reconciliation, as a state machine. The caller owns the
//! network: it performs each returned `Action` (a registry read, a provider
//! fetch, one append) and feeds the answer back in through the matching
//! `on_*` method. The machine owns every decision: the fetch window, the
//! up-to-date short circuit, deduplication, and the per-point success
//! ledger. A reconciliation therefore runs: history read, gap decision,
//! fetch, second history read, then one append at a time, and ends with a
//! single `Report` action.

use vstd::prelude::*;
use crate::date::Date;
use crate::engine::{
    Outcome, Plan, SyncError, Window, spec_plan, spec_latest_of, spec_known_dates, spec_dedup,
    views_of, latest_date, known_dates, dedup_points, plan_fetch, lemma_latest_valid,
};
use crate::models::HistoricalDataPoint;

verus! {

/// What the caller must do next for this stock.
#[derive(Clone, Copy, PartialEq, Eq, Structural, Debug)]
pub enum Action {
    /// Ask the provider for the window's points and hand them to
    /// `on_fetched` (or call `on_fetch_failed`).
    Fetch { window: Window },
    /// Ask the registry for the stored history again and hand the date
    /// strings to `on_existing` (or call `on_registry_failed`).
    QueryExisting,
    /// Append this one point and hand the per-point success to
    /// `on_append_result`.
    Append { point: HistoricalDataPoint },
    /// The reconciliation is over; nothing more will be asked.
    Report { outcome: Outcome },
}

enum Phase {
    AwaitHistory,
    AwaitFetch,
    AwaitExisting { candidates: Vec<HistoricalDataPoint> },
    Applying {
        pending: Vec<HistoricalDataPoint>,
        next: usize,
        applied: u64,
        log: Ghost<Seq<bool>>,
    },
    Done { outcome: Outcome },
}

/// How many appends in a ledger succeeded.
pub open spec fn spec_count_true(log: Seq<bool>) -> int
    decreases log.len(),
{
    if log.len() == 0 {
        0
    } else {
        spec_count_true(log.drop_last()) + if log.last() {
            1int
        } else {
            0int
        }
    }
}

pub proof fn lemma_count_true_bound(log: Seq<bool>)
    ensures
        0 <= spec_count_true(log) <= log.len(),
    decreases log.len(),
{
    if log.len() > 0 {
        lemma_count_true_bound(log.drop_last());
    }
}

/// The reconciliation of one stock, between two network calls.
pub struct Reconciler {
    today: Date,
    phase: Phase,
}

impl Reconciler {
    #[verifier::type_invariant]
    spec fn inv(self) -> bool {
        self.today.valid() && match self.phase {
            Phase::Applying { pending, next, applied, log } => pending@.len() > 0 && next
                < pending@.len() && log@.len() == next && applied as int == spec_count_true(log@),
            _ => true,
        }
    }

    /// The fixed "today" this reconciliation was started with.
    pub closed spec fn today(self) -> Date {
        self.today
    }

    pub closed spec fn awaiting_history(self) -> bool {
        self.phase is AwaitHistory
    }

    pub closed spec fn awaiting_fetch(self) -> bool {
        self.phase is AwaitFetch
    }

    pub closed spec fn awaiting_existing(self) -> bool {
        self.phase is AwaitExisting
    }

    pub closed spec fn applying(self) -> bool {
        self.phase is Applying
    }

    pub closed spec fn done(self) -> bool {
        self.phase is Done
    }

    /// The fetched candidates, while the second registry read is pending.
    pub closed spec fn candidates(self) -> Seq<HistoricalDataPoint> {
        match self.phase {
            Phase::AwaitExisting { candidates } => candidates@,
            _ => Seq::empty(),
        }
    }

    /// The deduplicated points being appended, in provider order.
    pub closed spec fn pending(self) -> Seq<HistoricalDataPoint> {
        match self.phase {
            Phase::Applying { pending, .. } => pending@,
            _ => Seq::empty(),
        }
    }

    /// The index of the point whose append is in flight.
    pub closed spec fn next_index(self) -> int {
        match self.phase {
            Phase::Applying { next, .. } => next as int,
            _ => 0,
        }
    }

    /// The per-point success ledger of the appends answered so far.
    pub closed spec fn log(self) -> Seq<bool> {
        match self.phase {
            Phase::Applying { log, .. } => log@,
            _ => Seq::empty(),
        }
    }

    /// Starts a reconciliation; the first action is the registry history
    /// read.
    pub fn new(today: Date) -> (m: Reconciler)
        requires
            today.valid(),
        ensures
            m.awaiting_history(),
            m.today() == today,
    {
        Reconciler { today, phase: Phase::AwaitHistory }
    }

    /// The registry's stored date strings arrived. A malformed stored date
    /// fails the stock; otherwise the gap decision is `spec_plan` on the
    /// maximum stored date: already up to date (the provider is never
    /// asked), or a fetch — with no lower bound when nothing is stored.
    pub fn on_history(&mut self, dates: Vec<String>) -> (a: Action)
        requires
            old(self).awaiting_history(),
        ensures
            final(self).today() == old(self).today(),
            match spec_latest_of(views_of(dates@)) {
                Err(e) => final(self).done() && a == (Action::Report {
                    outcome: Outcome::Failed { error: e },
                }),
                Ok(latest) => match spec_plan(latest, old(self).today()) {
                    Plan::UpToDate => final(self).done() && a == (Action::Report {
                        outcome: Outcome::UpToDate,
                    }),
                    Plan::Fetch { window } => final(self).awaiting_fetch() && a == (Action::Fetch {
                        window,
                    }),
                },
            },
    {
        proof {
            use_type_invariant(&*self);
        }
        match latest_date(&dates) {
            Err(e) => {
                let outcome = Outcome::Failed { error: e };
                self.phase = Phase::Done { outcome };
                Action::Report { outcome }
            },
            Ok(latest) => {
                proof {
                    lemma_latest_valid(views_of(dates@));
                }
                match plan_fetch(latest, self.today) {
                    Plan::UpToDate => {
                        self.phase = Phase::Done { outcome: Outcome::UpToDate };
                        Action::Report { outcome: Outcome::UpToDate }
                    },
                    Plan::Fetch { window } => {
                        self.phase = Phase::AwaitFetch;
                        Action::Fetch { window }
                    },
                }
            },
        }
    }

    /// A registry read failed; the stock's reconciliation is over.
    pub fn on_registry_failed(&mut self) -> (a: Action)
        requires
            old(self).awaiting_history() || old(self).awaiting_existing(),
        ensures
            final(self).today() == old(self).today(),
            final(self).done(),
            a == (Action::Report { outcome: Outcome::Failed { error: SyncError::Registry } }),
    {
        proof {
            use_type_invariant(&*self);
        }
        let outcome = Outcome::Failed { error: SyncError::Registry };
        self.phase = Phase::Done { outcome };
        Action::Report { outcome }
    }

    /// The provider answered. Nothing for the window ends the stock with
    /// "no new data"; otherwise the candidates are held and the second,
    /// independent registry read is requested for deduplication.
    pub fn on_fetched(&mut self, points: Vec<HistoricalDataPoint>) -> (a: Action)
        requires
            old(self).awaiting_fetch(),
        ensures
            final(self).today() == old(self).today(),
            points@.len() == 0 ==> final(self).done() && a == (Action::Report {
                outcome: Outcome::NoNewData,
            }),
            points@.len() > 0 ==> final(self).awaiting_existing() && final(self).candidates() == points@ && a
                == Action::QueryExisting,
    {
        proof {
            use_type_invariant(&*self);
        }
        if points.len() == 0 {
            self.phase = Phase::Done { outcome: Outcome::NoNewData };
            Action::Report { outcome: Outcome::NoNewData }
        } else {
            self.phase = Phase::AwaitExisting { candidates: points };
            Action::QueryExisting
        }
    }

    /// The provider call failed; the stock's reconciliation is over and no
    /// partial state was written.
    pub fn on_fetch_failed(&mut self) -> (a: Action)
        requires
            old(self).awaiting_fetch(),
        ensures
            final(self).today() == old(self).today(),
            final(self).done(),
            a == (Action::Report { outcome: Outcome::Failed { error: SyncError::Provider } }),
    {
        proof {
            use_type_invariant(&*self);
        }
        let outcome = Outcome::Failed { error: SyncError::Provider };
        self.phase = Phase::Done { outcome };
        Action::Report { outcome }
    }

    /// The second registry read arrived. Every candidate whose date is
    /// already stored is dropped — the check is exact set membership, not a
    /// range check. Nothing left ends the stock with "all data already
    /// present"; otherwise the appends start, one point at a time.
    pub fn on_existing(&mut self, dates: Vec<String>) -> (a: Action)
        requires
            old(self).awaiting_existing(),
        ensures
            final(self).today() == old(self).today(),
            ({
                let pend = spec_dedup(
                    old(self).candidates(),
                    spec_known_dates(views_of(dates@)).to_set(),
                );
                (pend.len() == 0 ==> final(self).done() && a == (Action::Report {
                    outcome: Outcome::AllPresent,
                })) && (pend.len() > 0 ==> final(self).applying() && final(self).pending() == pend
                    && final(self).next_index() == 0 && final(self).log() == Seq::<bool>::empty() && a
                    == (Action::Append { point: pend[0] }))
            }),
    {
        proof {
            use_type_invariant(&*self);
        }
        let mut taken = Phase::AwaitHistory;
        core::mem::swap(&mut taken, &mut self.phase);
        match taken {
            Phase::AwaitExisting { candidates } => {
                let stored = known_dates(&dates);
                let pending = dedup_points(candidates, &stored);
                if pending.len() == 0 {
                    self.phase = Phase::Done { outcome: Outcome::AllPresent };
                    Action::Report { outcome: Outcome::AllPresent }
                } else {
                    let first = pending[0];
                    self.phase = Phase::Applying {
                        pending,
                        next: 0,
                        applied: 0,
                        log: Ghost(Seq::empty()),
                    };
                    Action::Append { point: first }
                }
            },
            _ => {
                proof {
                    assert(false);
                }
                Action::QueryExisting
            },
        }
    }

    /// One append was answered. Success raises the applied count, failure
    /// only the ledger — the point is not retried in this cycle — and in
    /// either case the machine moves to the next pending point, or reports
    /// "synchronized applied of attempted" once every point was tried
    /// exactly once.
    pub fn on_append_result(&mut self, ok: bool) -> (a: Action)
        requires
            old(self).applying(),
        ensures
            final(self).today() == old(self).today(),
            ({
                let pend = old(self).pending();
                let n = old(self).next_index();
                let newlog = old(self).log().push(ok);
                (n + 1 < pend.len() ==> final(self).applying() && final(self).pending() == pend
                    && final(self).next_index() == n + 1 && final(self).log() == newlog && a == (Action::Append {
                    point: pend[n + 1],
                })) && (n + 1 >= pend.len() ==> final(self).done() && a == (Action::Report {
                    outcome: Outcome::Synchronized {
                        applied: spec_count_true(newlog) as u64,
                        attempted: pend.len() as u64,
                    },
                }))
            }),
    {
        proof {
            use_type_invariant(&*self);
        }
        let mut taken = Phase::AwaitHistory;
        core::mem::swap(&mut taken, &mut self.phase);
        match taken {
            Phase::Applying { pending, next, applied, log } => {
                let len = pending.len();
                proof {
                    lemma_count_true_bound(log@);
                    assert(next < len);
                    assert(applied as int <= next as int);
                }
                let newapplied = if ok {
                    applied + 1
                } else {
                    applied
                };
                let ghost newlog = log@.push(ok);
                proof {
                    assert(newlog.drop_last() =~= log@);
                }
                if next + 1 < len {
                    let point = pending[next + 1];
                    self.phase = Phase::Applying {
                        pending,
                        next: next + 1,
                        applied: newapplied,
                        log: Ghost(newlog),
                    };
                    Action::Append { point }
                } else {
                    let outcome = Outcome::Synchronized {
                        applied: newapplied,
                        attempted: len as u64,
                    };
                    self.phase = Phase::Done { outcome };
                    Action::Report { outcome }
                }
            },
            _ => {
                proof {
                    assert(false);
                }
                Action::QueryExisting
            },
        }
    }

    /// Exposes the phases to unverified callers, which must match an
    /// `Action` with the machine's state before answering it.
    pub fn is_awaiting_history(&self) -> (b: bool)
        ensures
            b == self.awaiting_history(),
    {
        matches!(self.phase, Phase::AwaitHistory)
    }

    pub fn is_awaiting_fetch(&self) -> (b: bool)
        ensures
            b == self.awaiting_fetch(),
    {
        matches!(self.phase, Phase::AwaitFetch)
    }

    pub fn is_awaiting_existing(&self) -> (b: bool)
        ensures
            b == self.awaiting_existing(),
    {
        matches!(self.phase, Phase::AwaitExisting { .. })
    }

    pub fn is_applying(&self) -> (b: bool)
        ensures
            b == self.applying(),
    {
        matches!(self.phase, Phase::Applying { .. })
    }

    pub fn is_done(&self) -> (b: bool)
        ensures
            b == self.done(),
    {
        matches!(self.phase, Phase::Done { .. })
    }
}

} // verus!
