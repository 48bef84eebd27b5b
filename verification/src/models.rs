//! The shapes of the exchange's answers.
//!
//! Amounts and prices are kept as the decimal text the exchange sends.

use vstd::prelude::*;

verus! {

/// One market in the list of markets.
#[derive(Debug)]
pub struct MarketList {
    /// Unique market id, such as `btcusd`.
    pub id: String,
    /// Display name, such as `BTC/USD`.
    pub name: String,
}

/// Aggregated order book of a market.
#[derive(Debug)]
pub struct Depth {
    /// Unix time at which the depth was taken.
    pub timestamp: usize,
    /// Sell side.
    pub asks: Vec<TinyOrder>,
    /// Buy side.
    pub bids: Vec<TinyOrder>,
}

/// One price level of a depth listing.
#[derive(Debug)]
pub struct TinyOrder {
    pub price: String,
    pub vol: String,
}

/// The account holder.
#[derive(Debug)]
pub struct Member {
    /// Unique identifier of the user.
    pub sn: String,
    /// User name, where one is set.
    pub name: Option<String>,
    pub email: String,
    /// Whether the user is activated.
    pub activated: bool,
    /// The user's accounts, one for each currency.
    pub accounts_filtered: Vec<Account>,
}

/// The balance of one currency.
#[derive(Debug)]
pub struct Account {
    /// Currency code, such as `btc`.
    pub currency: String,
    /// Funds that are free to use.
    pub balance: String,
    /// Funds that are locked in open orders.
    pub locked: String,
}

/// An order of the account holder.
#[derive(Debug)]
pub struct Order {
    /// Unique order id.
    pub id: usize,
    /// `buy` or `sell`.
    pub side: String,
    pub price: String,
    /// Average execution price.
    pub avg_price: String,
    /// `wait`, `done` or `cancel`.
    pub state: String,
    /// The market the order belongs to.
    pub market: String,
    /// Creation time, such as `2014-04-18T02:02:33Z`.
    pub created_at: String,
    /// Volume to buy or sell: remaining plus executed.
    pub volume: String,
    pub remaining_volume: String,
    pub executed_volume: String,
    /// The trades that filled the order, where the answer lists them.
    pub trades: Option<Vec<Trade>>,
}

/// One executed trade.
#[derive(Debug)]
pub struct Trade {
    /// Unique trade id.
    pub id: usize,
    pub price: String,
    pub volume: String,
    /// The market, such as `btcusd`.
    pub market: String,
    /// Execution time, such as `2014-04-18T02:02:33Z`.
    pub created_at: String,
}

/// The open orders of a market.
#[derive(Debug)]
pub struct OrderBook {
    pub asks: Vec<Order>,
    pub bids: Vec<Order>,
}

} // verus!
