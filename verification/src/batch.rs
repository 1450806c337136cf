//! One tick of the sync loop: the batch of stocks to reconcile, processed
//! strictly one at a time. The batch only tracks position and outcomes; the
//! caller reconciles the current stock (see `reconcile`) and records what
//! came of it. Recording moves to the next stock whatever the outcome was,
//! so one stock's failure never keeps the rest of the batch from being
//! processed.

use vstd::prelude::*;
use crate::engine::Outcome;
use crate::models::Stock;

verus! {

/// The progress of one tick over the listed stocks.
pub struct Batch {
    stocks: Vec<Stock>,
    outcomes: Vec<Outcome>,
}

impl Batch {
    /// The stocks of this tick, in processing order.
    pub closed spec fn stocks(self) -> Seq<Stock> {
        self.stocks@
    }

    /// One outcome per already-processed stock, in the same order.
    pub closed spec fn outcomes(self) -> Seq<Outcome> {
        self.outcomes@
    }

    /// The index of the stock being processed next.
    pub open spec fn position(self) -> int {
        self.outcomes().len() as int
    }

    pub fn new(stocks: Vec<Stock>) -> (b: Batch)
        ensures
            b.stocks() == stocks@,
            b.outcomes() == Seq::<Outcome>::empty(),
    {
        Batch { stocks, outcomes: Vec::new() }
    }

    /// The stock to reconcile next, or `None` once the tick is complete.
    pub fn current(&self) -> (s: Option<&Stock>)
        ensures
            match s {
                Some(st) => self.position() < self.stocks().len() && *st == self.stocks()[
                    self.position()
                ],
                None => self.position() >= self.stocks().len(),
            },
    {
        if self.outcomes.len() < self.stocks.len() {
            Some(&self.stocks[self.outcomes.len()])
        } else {
            None
        }
    }

    /// Records the current stock's outcome and advances to the next stock.
    /// The ensures holds for every outcome alike — a failure is recorded and
    /// stepped over exactly like a success, so the stocks after a failing
    /// one are still processed in the same tick.
    pub fn record(&mut self, outcome: Outcome)
        requires
            old(self).position() < old(self).stocks().len(),
        ensures
            final(self).stocks() == old(self).stocks(),
            final(self).outcomes() == old(self).outcomes().push(outcome),
            final(self).position() == old(self).position() + 1,
    {
        self.outcomes.push(outcome);
    }

    /// Whether every stock of the tick has been processed.
    pub fn finished(&self) -> (b: bool)
        ensures
            b == (self.position() >= self.stocks().len()),
    {
        self.outcomes.len() >= self.stocks.len()
    }

    /// The recorded outcomes, one per processed stock.
    pub fn results(&self) -> (r: &Vec<Outcome>)
        ensures
            r@ == self.outcomes(),
    {
        &self.outcomes
    }
}

} // verus!
