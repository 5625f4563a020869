use crate::feed::types::TradeSide;
use crate::model::types::Price;
use vstd::prelude::*;

verus! {

/// A quote update for a symbol.
#[derive(Debug, Clone)]
pub struct L1PriceUpdate {
    pub symbol: String,
    pub bid: Price,
    pub ask: Price,
    pub timestamp: i64,
}

/// A trade update for a symbol.
#[derive(Debug, Clone)]
pub struct L2TradeUpdate {
    pub symbol: String,
    pub price: Price,
    pub size: Price,
    pub side: TradeSide,
    pub timestamp: i64,
}

/// Whether `at` is the place of the latest update for `symbol`: it is for
/// that symbol, and no later one is.
pub open spec fn is_latest_for(updates: Seq<L1PriceUpdate>, symbol: Seq<char>, at: int) -> bool {
    &&& 0 <= at < updates.len()
    &&& updates[at].symbol@ == symbol
    &&& forall|later: int| at < later < updates.len() ==> updates[later].symbol@ != symbol
}

/// The trades of `updates` that happened at `timestamp` or later, in the
/// order in which they arrived.
pub open spec fn trades_since(updates: Seq<L2TradeUpdate>, timestamp: i64) -> Seq<L2TradeUpdate>
    decreases updates.len(),
{
    if updates.len() == 0 {
        Seq::empty()
    } else if updates.last().timestamp >= timestamp {
        trades_since(updates.drop_last(), timestamp).push(updates.last())
    } else {
        trades_since(updates.drop_last(), timestamp)
    }
}

/// Every trade that is kept happened at `timestamp` or later, and no more
/// trades are kept than there are.
pub proof fn lemma_trades_since_are_recent(updates: Seq<L2TradeUpdate>, timestamp: i64)
    ensures
        trades_since(updates, timestamp).len() <= updates.len(),
        forall|i: int|
            0 <= i < trades_since(updates, timestamp).len() ==> (#[trigger] trades_since(
                updates,
                timestamp,
            )[i]).timestamp >= timestamp,
    decreases updates.len(),
{
    if updates.len() > 0 {
        lemma_trades_since_are_recent(updates.drop_last(), timestamp);
    }
}

/// The updates that clients have sent, in the order of their arrival.
#[derive(Debug)]
pub struct MarketDataFeed {
    pub price_updates: Vec<L1PriceUpdate>,
    pub trade_updates: Vec<L2TradeUpdate>,
}

impl MarketDataFeed {
    /// A feed without updates.
    pub fn new() -> (feed: Self)
        ensures
            feed.price_updates@.len() == 0,
            feed.trade_updates@.len() == 0,
    {
        MarketDataFeed { price_updates: Vec::new(), trade_updates: Vec::new() }
    }

    /// Appends a quote update.
    pub fn add_price_update(&mut self, update: L1PriceUpdate)
        ensures
            final(self).price_updates@ == old(self).price_updates@.push(update),
            final(self).trade_updates@ == old(self).trade_updates@,
    {
        self.price_updates.push(update);
    }

    /// Appends a trade update.
    pub fn add_trade_update(&mut self, update: L2TradeUpdate)
        ensures
            final(self).trade_updates@ == old(self).trade_updates@.push(update),
            final(self).price_updates@ == old(self).price_updates@,
    {
        self.trade_updates.push(update);
    }

    /// The quote update for `symbol` that arrived last, if any arrived.
    pub fn get_latest_price(&self, symbol: &String) -> (latest: Option<&L1PriceUpdate>)
        ensures
            match latest {
                Some(update) => exists|at: int|
                    is_latest_for(self.price_updates@, symbol@, at) && *update
                        == #[trigger] self.price_updates@[at],
                None => forall|at: int|
                    0 <= at < self.price_updates@.len() ==> (
                    #[trigger] self.price_updates@[at]).symbol@ != symbol@,
            },
    {
        let mut i: usize = self.price_updates.len();
        while i > 0
            invariant
                i <= self.price_updates@.len(),
                forall|later: int|
                    i <= later < self.price_updates@.len() ==> (
                    #[trigger] self.price_updates@[later]).symbol@ != symbol@,
            decreases i,
        {
            i = i - 1;
            if self.price_updates[i].symbol.eq(symbol) {
                proof {
                    assert(is_latest_for(self.price_updates@, symbol@, i as int));
                }
                return Some(&self.price_updates[i]);
            }
        }
        None
    }

    /// The trades that happened at `timestamp` or later, in the order in
    /// which they arrived.
    pub fn get_trades_since(&self, timestamp: i64) -> (recent: Vec<&L2TradeUpdate>)
        ensures
            recent@.len() == trades_since(self.trade_updates@, timestamp).len(),
            forall|i: int|
                0 <= i < recent@.len() ==> *(#[trigger] recent@[i]) == trades_since(
                    self.trade_updates@,
                    timestamp,
                )[i],
    {
        let mut recent: Vec<&L2TradeUpdate> = Vec::new();
        let mut i: usize = 0;
        while i < self.trade_updates.len()
            invariant
                i <= self.trade_updates@.len(),
                recent@.len() == trades_since(self.trade_updates@.take(i as int), timestamp).len(),
                forall|k: int|
                    0 <= k < recent@.len() ==> *(#[trigger] recent@[k]) == trades_since(
                        self.trade_updates@.take(i as int),
                        timestamp,
                    )[k],
            decreases self.trade_updates@.len() - i,
        {
            proof {
                assert(self.trade_updates@.take(i + 1).drop_last() =~= self.trade_updates@.take(
                    i as int,
                ));
                assert(self.trade_updates@.take(i + 1).last() == self.trade_updates@[i as int]);
            }
            if self.trade_updates[i].timestamp >= timestamp {
                recent.push(&self.trade_updates[i]);
            }
            i = i + 1;
        }
        proof {
            assert(self.trade_updates@.take(i as int) =~= self.trade_updates@);
        }
        recent
    }
}

} // verus!
