use vstd::prelude::*;

use crate::rates::{RateSpec, Rates};

verus! {

/// A rate source's answer: the rates of one base currency.
pub struct Quotes {
    pub data: Data,
}

/// The rates of `currency`: how much of each code one unit of it buys.
pub struct Data {
    pub currency: String,
    pub rates: Rates,
}

/// What a rate feed holds: the current table, whether a refresh is under way and
/// whether the feed was torn down.
pub struct FeedState {
    pub table: Seq<RateSpec>,
    pub in_flight: bool,
    pub cancelled: bool,
}

/// The rate table of a session, refreshed from a rate source one request at a
/// time. A failed refresh keeps the table that was there; a refresh that ends
/// after teardown is ignored.
pub struct RateFeed {
    rates: Rates,
    in_flight: bool,
    cancelled: bool,
}

impl View for RateFeed {
    type V = FeedState;

    closed spec fn view(&self) -> FeedState {
        FeedState { table: self.rates.table(), in_flight: self.in_flight, cancelled: self.cancelled }
    }
}

impl RateFeed {
    pub closed spec fn wf(&self) -> bool {
        self.rates.wf()
    }

    /// A feed with an empty table and no request under way.
    pub fn new() -> (r: RateFeed)
        ensures
            r.wf(),
            r@ == (FeedState { table: Seq::empty(), in_flight: false, cancelled: false }),
    {
        RateFeed { rates: Rates::new(), in_flight: false, cancelled: false }
    }

    /// The table to substitute with now.
    pub fn rates(&self) -> (r: &Rates)
        requires
            self.wf(),
        ensures
            r.table() == self@.table,
            r.wf(),
    {
        &self.rates
    }

    /// Asks to start a refresh: it may start, and the answer is `true`, only when
    /// none is under way and the feed was not torn down.
    pub fn begin_refresh(&mut self) -> (start: bool)
        ensures
            start == (!old(self)@.in_flight && !old(self)@.cancelled),
            final(self)@ == (FeedState { in_flight: old(self)@.in_flight || start, ..old(self)@ }),
            final(self).wf() == old(self).wf(),
    {
        let start = !self.in_flight && !self.cancelled;
        if start {
            self.in_flight = true;
        }
        start
    }

    /// A refresh has ended with `fetched`, absent where the transport or the parse
    /// failed. The new table replaces the old one whole, unless the feed was torn
    /// down; without one the old table stays.
    pub fn end_refresh(&mut self, fetched: Option<Quotes>)
        requires
            old(self).wf(),
            fetched matches Some(q) ==> q.data.rates.wf(),
        ensures
            final(self).wf(),
            !final(self)@.in_flight,
            final(self)@.cancelled == old(self)@.cancelled,
            final(self)@.table == match fetched {
                Some(q) if !old(self)@.cancelled => q.data.rates.table(),
                _ => old(self)@.table,
            },
    {
        self.in_flight = false;
        if !self.cancelled {
            if let Some(q) = fetched {
                self.rates = q.data.rates;
            }
        }
    }

    /// The owner of the feed is gone: a refresh under way is to be aborted, and its
    /// result, should it still come, is ignored.
    pub fn cancel(&mut self) -> (abort: bool)
        ensures
            abort == old(self)@.in_flight,
            final(self)@ == (FeedState { cancelled: true, ..old(self)@ }),
            final(self).wf() == old(self).wf(),
    {
        self.cancelled = true;
        self.in_flight
    }
}

} // verus!
