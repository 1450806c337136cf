//! The engine's laws, proved over an abstract model of one reconciliation
//! cycle. A stored series is abstracted to its set of dates; the provider is
//! abstracted to the fixed set of dates it has points for, of which a fetch
//! returns exactly those inside the requested window. One cycle is then: take
//! the high-water mark, plan with `spec_plan`, fetch, drop what is stored,
//! append the rest (here: with every append succeeding).

use vstd::prelude::*;
use crate::date::{Date, date_le, spec_succ, lemma_succ_adjacent, lemma_max_date_seq};
use crate::engine::{
    Outcome, Plan, Window, spec_plan, spec_in_window, spec_dedup, spec_latest_of,
    spec_known_dates, lemma_known_dates_len,
};
use crate::models::HistoricalDataPoint;

verus! {

/// The dates a run of points carries, in order.
pub open spec fn spec_dates_of(pts: Seq<HistoricalDataPoint>) -> Seq<Date> {
    pts.map_values(|p: HistoricalDataPoint| p.date)
}

/// `d` is stored and no stored date is later.
pub open spec fn is_max_date(s: Set<Date>, d: Date) -> bool {
    s.contains(d) && forall|e: Date| #[trigger] s.contains(e) ==> date_le(e, d)
}

pub open spec fn no_dates(s: Set<Date>) -> bool {
    forall|d: Date| !s.contains(d)
}

/// The registry's high-water mark of a stored set of dates.
pub open spec fn spec_store_latest(stored: Set<Date>) -> Option<Date> {
    if exists|d: Date| stored.contains(d) {
        Some(choose|d: Date| is_max_date(stored, d))
    } else {
        None
    }
}

/// What the provider returns for a plan: nothing without a fetch, else its
/// dates inside the window.
pub open spec fn spec_fetched(provider: Set<Date>, plan: Plan) -> Set<Date> {
    match plan {
        Plan::UpToDate => Set::empty(),
        Plan::Fetch { window } => provider.filter(|d: Date| spec_in_window(window, d)),
    }
}

/// The dates one cycle writes when every append succeeds: the fetched dates
/// not yet stored.
pub open spec fn spec_cycle_new(stored: Set<Date>, provider: Set<Date>, today: Date) -> Set<
    Date,
> {
    spec_fetched(provider, spec_plan(spec_store_latest(stored), today)).difference(stored)
}

/// The stored set after one cycle.
pub open spec fn spec_cycle(stored: Set<Date>, provider: Set<Date>, today: Date) -> Set<Date> {
    stored.union(spec_cycle_new(stored, provider, today))
}

/// The outcome one cycle reports over the abstract store.
pub open spec fn spec_cycle_outcome(stored: Set<Date>, provider: Set<Date>, today: Date) -> Outcome {
    let plan = spec_plan(spec_store_latest(stored), today);
    match plan {
        Plan::UpToDate => Outcome::UpToDate,
        Plan::Fetch { window } => {
            let fetched = spec_fetched(provider, plan);
            let fresh = fetched.difference(stored);
            if no_dates(fetched) {
                Outcome::NoNewData
            } else if no_dates(fresh) {
                Outcome::AllPresent
            } else {
                Outcome::Synchronized { applied: fresh.len() as u64, attempted: fresh.len() as u64 }
            }
        },
    }
}

/// A finite non-empty set of dates has a maximum (calendar order is total).
proof fn lemma_max_exists(s: Set<Date>)
    requires
        s.finite(),
        exists|d: Date| s.contains(d),
    ensures
        exists|d: Date| is_max_date(s, d),
    decreases s.len(),
{
    let x = choose|d: Date| s.contains(d);
    let rest = s.remove(x);
    if exists|d: Date| rest.contains(d) {
        lemma_max_exists(rest);
        let m = choose|d: Date| is_max_date(rest, d);
        if date_le(m, x) {
            assert(is_max_date(s, x));
        } else {
            assert(is_max_date(s, m));
        }
    } else {
        assert(is_max_date(s, x));
    }
}

/// Law (up-to-date short circuit): when the successor of the latest stored
/// date has already reached today, the plan is `UpToDate` — no fetch window
/// exists, so the provider is never asked.
pub proof fn lemma_up_to_date_short_circuit(latest: Date, today: Date)
    requires
        date_le(today, spec_succ(latest)),
    ensures
        spec_plan(Some(latest), today) == Plan::UpToDate,
{
}

/// Law (backfill from empty): with no stored date, the plan is a fetch
/// whose window has no lower bound and whose upper bound is today.
pub proof fn lemma_backfill_window(today: Date)
    ensures
        spec_plan(None, today) == (Plan::Fetch { window: Window::Full { to: today } }),
{
}

/// Law (no duplicate dates): deduplication checks exact membership against
/// everything stored, so no surviving candidate collides with a stored date;
/// the survivors all come from the candidates; and when the candidate dates
/// are pairwise distinct, so are the survivors' — appending them cannot
/// introduce a duplicate date.
pub proof fn lemma_dedup_no_duplicates(c: Seq<HistoricalDataPoint>, existing: Set<Date>)
    requires
        forall|i: int, j: int| 0 <= i < j < c.len() ==> c[i].date != c[j].date,
    ensures
        forall|i: int|
            0 <= i < spec_dedup(c, existing).len() ==> !existing.contains(
                (#[trigger] spec_dedup(c, existing)[i]).date,
            ),
        forall|i: int|
            0 <= i < spec_dedup(c, existing).len() ==> c.contains(
                #[trigger] spec_dedup(c, existing)[i],
            ),
        forall|i: int, j: int|
            0 <= i < j < spec_dedup(c, existing).len() ==> spec_dedup(c, existing)[i].date
                != spec_dedup(c, existing)[j].date,
    decreases c.len(),
{
    let r = spec_dedup(c, existing);
    if c.len() > 0 {
        let head = c.drop_last();
        assert(forall|i: int| 0 <= i < head.len() ==> head[i] == c[i]);
        lemma_dedup_no_duplicates(head, existing);
        let rest = spec_dedup(head, existing);
        assert forall|x: HistoricalDataPoint| head.contains(x) implies c.contains(x) by {
            let k = choose|k: int| 0 <= k < head.len() && head[k] == x;
            assert(c[k] == x);
        }
        if !existing.contains(c.last().date) {
            assert(r == rest.push(c.last()));
            assert forall|i: int, j: int| 0 <= i < j < r.len() implies r[i].date != r[j].date by {
                if j < r.len() - 1 {
                    assert(r[i] == rest[i] && r[j] == rest[j]);
                } else {
                    assert(r[j] == c.last());
                    assert(r[i] == rest[i]);
                    assert(head.contains(rest[i]));
                    let k = choose|k: int| 0 <= k < head.len() && head[k] == rest[i];
                    assert(c[k] == rest[i]);
                    assert(c[k].date != c[c.len() - 1].date);
                }
            }
        }
    }
}

/// The engine's deduplication and the model's set difference agree: the
/// survivors' dates are exactly the candidate dates not yet stored.
pub proof fn lemma_dedup_matches_difference(c: Seq<HistoricalDataPoint>, existing: Set<Date>)
    ensures
        spec_dates_of(spec_dedup(c, existing)).to_set() =~= spec_dates_of(c).to_set().difference(
            existing,
        ),
    decreases c.len(),
{
    broadcast use vstd::prelude::Seq::lemma_push_to_set_commute;

    if c.len() > 0 {
        let head = c.drop_last();
        lemma_dedup_matches_difference(head, existing);
        let last = c.last();
        assert(spec_dates_of(c) =~= spec_dates_of(head).push(last.date));
        if existing.contains(last.date) {
            assert(spec_dedup(c, existing) == spec_dedup(head, existing));
        } else {
            assert(spec_dates_of(spec_dedup(c, existing)) =~= spec_dates_of(
                spec_dedup(head, existing),
            ).push(last.date));
        }
    }
}

/// The engine's high-water mark is the model's: a computed latest date is a
/// maximum of the set of stored dates.
pub proof fn lemma_latest_is_max(raw: Seq<Seq<char>>)
    ensures
        spec_latest_of(raw) matches Ok(Some(d)) ==> is_max_date(
            spec_known_dates(raw).to_set(),
            d,
        ),
{
    let r = spec_latest_of(raw);
    if r is Ok && r->Ok_0 is Some {
        let d = r->Ok_0->Some_0;
        let s = spec_known_dates(raw);
        lemma_known_dates_len(raw);
        lemma_max_date_seq(s);
        assert(s.to_set().contains(d));
        assert forall|e: Date| #[trigger] s.to_set().contains(e) implies date_le(e, d) by {
            assert(s.contains(e));
            let i = choose|i: int| 0 <= i < s.len() && s[i] == e;
            assert(date_le(s[i], d));
        }
    }
}

/// Law (idempotence of a full cycle): right after a cycle in which every
/// append succeeded, a second cycle against the same provider writes
/// nothing — it ends up to date, with no new data, or with all data already
/// present, and leaves the store unchanged.
pub proof fn lemma_cycle_idempotent(stored: Set<Date>, provider: Set<Date>, today: Date)
    requires
        stored.finite(),
        provider.finite(),
        forall|d: Date| #[trigger] stored.contains(d) ==> d.valid(),
        forall|d: Date| #[trigger] provider.contains(d) ==> d.valid(),
        today.valid(),
    ensures
        no_dates(spec_cycle_new(spec_cycle(stored, provider, today), provider, today)),
        spec_cycle(spec_cycle(stored, provider, today), provider, today) == spec_cycle(
            stored,
            provider,
            today,
        ),
        !(spec_cycle_outcome(spec_cycle(stored, provider, today), provider, today)
            is Synchronized),
{
    let plan1 = spec_plan(spec_store_latest(stored), today);
    let new1 = spec_cycle_new(stored, provider, today);
    let s1 = spec_cycle(stored, provider, today);
    let plan2 = spec_plan(spec_store_latest(s1), today);
    let new2 = spec_cycle_new(s1, provider, today);
    match plan1 {
        Plan::UpToDate => {},
        Plan::Fetch { window } => {
            provider.lemma_len_filter(|d: Date| spec_in_window(window, d));
        },
    }
    assert(s1.finite());
    assert forall|d: Date| !new2.contains(d) by {
        if new2.contains(d) {
            assert(provider.contains(d));
            assert(d.valid());
            match spec_store_latest(s1) {
                None => {
                    // nothing is in s1 at all, so nothing was stored and the
                    // first cycle was a full backfill that d belongs to
                    assert(forall|e: Date| !s1.contains(e));
                    assert forall|e: Date| !stored.contains(e) by {
                        if stored.contains(e) {
                            assert(s1.contains(e));
                        }
                    }
                    assert(spec_store_latest(stored) is None);
                    assert(plan1 == (Plan::Fetch { window: Window::Full { to: today } }));
                    assert(spec_in_window(Window::Full { to: today }, d));
                    assert(new1.contains(d));
                    assert(s1.contains(d));
                },
                Some(l2) => {
                    lemma_max_exists(s1);
                    assert(is_max_date(s1, l2));
                    assert(l2.valid());
                    // plan2 produced a window, so the catch-up starts at succ(l2)
                    assert(!date_le(today, spec_succ(l2)));
                    assert(date_le(spec_succ(l2), d) && date_le(d, today));
                    lemma_succ_adjacent(l2, d);
                    assert(date_le(l2, d) && l2 != d);
                    match spec_store_latest(stored) {
                        None => {
                            assert(!stored.contains(d));
                            assert(plan1 == (Plan::Fetch { window: Window::Full { to: today } }));
                            assert(spec_in_window(Window::Full { to: today }, d));
                            assert(new1.contains(d));
                            assert(s1.contains(d));
                        },
                        Some(l1) => {
                            lemma_max_exists(stored);
                            assert(is_max_date(stored, l1));
                            assert(l1.valid());
                            assert(s1.contains(l1));
                            assert(date_le(l1, l2));
                            if date_le(today, spec_succ(l1)) {
                                // first cycle was already up to date, so the
                                // store did not move and l2 is l1 itself
                                assert(plan1 == Plan::UpToDate);
                                assert(no_dates(new1));
                                assert(s1.contains(l2) && !new1.contains(l2));
                                assert(stored.contains(l2));
                                assert(date_le(l2, l1));
                                assert(l1 == l2);
                            } else {
                                assert(plan1 == (Plan::Fetch {
                                    window: Window::Range { from: spec_succ(l1), to: today },
                                }));
                                lemma_succ_adjacent(l1, d);
                                assert(date_le(spec_succ(l1), d));
                                assert(spec_in_window(
                                    Window::Range { from: spec_succ(l1), to: today },
                                    d,
                                ));
                                assert(!stored.contains(d));
                                assert(new1.contains(d));
                                assert(s1.contains(d));
                            }
                        },
                    }
                },
            }
        }
    }
    assert(s1.union(new2) =~= s1);
    assert(match spec_cycle_outcome(s1, provider, today) {
        Outcome::UpToDate => true,
        Outcome::NoNewData => true,
        Outcome::AllPresent => true,
        _ => false,
    });
}

} // verus!
