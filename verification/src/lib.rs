//! Client-side request preparation for the Graviex exchange web API.
//!
//! The crate turns a logical call (method, path, parameters) into the exact
//! request that goes on the wire. Authenticated calls are given a freshness
//! token, the access key and an HMAC-SHA256 signature over a canonical
//! rendering of the parameters; public calls pass through untouched. Nothing
//! here opens a socket: sending the prepared request is left to the caller.

pub mod canonical;
pub mod clock;
pub mod encoding;
pub mod endpoints;
pub mod json;
pub mod lexical;
pub mod method;
pub mod models;
pub mod params;
pub mod request;
pub mod response;
pub mod signature;
pub mod signer;
pub mod tonce;

pub use endpoints::{
    create_withdraw, currency_info, deposit, deposit_address, deposits, depth, fund_source_create,
    fund_source_remove, fund_sources, gen_deposit_address, history, kline, kline_pending, market,
    markets, me, order, order_book, order_delete, orders_clear, orders_get, orders_history,
    orders_multi, orders_post, register_device, settings_get, settings_store, strategies_list,
    strategies_list_my, ticker, tickers, timestamp, trades, trades_history, trades_my,
    trades_simple, withdraws,
};
pub use method::Method;
pub use models::{Account, Depth, MarketList, Member, Order, OrderBook, TinyOrder, Trade};
pub use params::ParamSet;
pub use request::{ApiCall, OutgoingRequest};
pub use response::RequestError;
pub use signer::{SignError, Signer};
