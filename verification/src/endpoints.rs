//! The endpoints of the exchange, one function each.
//!
//! A function states the call: method, address, parameters, and whether it
//! must be signed. It sends nothing.

use crate::json::{push_quoted, quoted};
use crate::method::Method;
use crate::params::{pairs_view, Entry, ParamSet};
use crate::request::{public_call, signed_call, ApiCall, ORIGIN, ORIGIN_WITH_PORT, TIMEOUT_SECS};
use vstd::prelude::*;

verus! {

/// `call` is the public `Get` call to `path` at `origin` with the given
/// parameters and time limit.
pub open spec fn is_public_call(
    call: ApiCall,
    origin: Seq<char>,
    path: Seq<char>,
    entries: Seq<Entry>,
    timeout_secs: Option<u64>,
) -> bool {
    &&& call.method == Method::Get
    &&& call.origin@ == origin
    &&& call.path@ == path
    &&& call.params.entries() == entries
    &&& !call.signed
    &&& call.timeout_secs == timeout_secs
}

/// `call` is the signed call to `path` with the given method and
/// parameters, bounded by the usual time limit.
pub open spec fn is_signed_call(
    call: ApiCall,
    method: Method,
    path: Seq<char>,
    entries: Seq<Entry>,
) -> bool {
    &&& call.method == method
    &&& call.origin@ == ORIGIN@
    &&& call.path@ == path
    &&& call.params.entries() == entries
    &&& call.signed
    &&& call.timeout_secs == Some(TIMEOUT_SECS)
}

/// All markets.
pub fn markets() -> (call: ApiCall)
    ensures
        is_public_call(call, ORIGIN@, "/webapi/v3/markets.json"@, Seq::<Entry>::empty(), None),
{
    public_call(ORIGIN, "/webapi/v3/markets.json", ParamSet::new(), None)
}

/// The market `m`, such as `ethbtc`.
pub fn market(m: &str) -> (call: ApiCall)
    ensures
        is_public_call(
            call,
            ORIGIN@,
            "/webapi/v3/markets/"@ + m@ + ".json"@,
            Seq::<Entry>::empty(),
            None,
        ),
{
    let mut path = String::from_str("/webapi/v3/markets/");
    path.append(m);
    path.append(".json");
    public_call(ORIGIN, path.as_str(), ParamSet::new(), None)
}

/// The tickers of all markets.
pub fn tickers() -> (call: ApiCall)
    ensures
        is_public_call(
            call,
            ORIGIN_WITH_PORT@,
            "/webapi/v3/tickers.json"@,
            Seq::<Entry>::empty(),
            None,
        ),
{
    public_call(ORIGIN_WITH_PORT, "/webapi/v3/tickers.json", ParamSet::new(), None)
}

/// The ticker of the market `t`, such as `ethbtc`.
pub fn ticker(t: &str) -> (call: ApiCall)
    ensures
        is_public_call(
            call,
            ORIGIN_WITH_PORT@,
            "/webapi/v3/tickers/"@ + t@ + ".json"@,
            Seq::<Entry>::empty(),
            None,
        ),
{
    let mut path = String::from_str("/webapi/v3/tickers/");
    path.append(t);
    path.append(".json");
    public_call(ORIGIN_WITH_PORT, path.as_str(), ParamSet::new(), None)
}

/// The depth of a market. Parameters: `market`, and where wanted `limit`
/// and `order`.
pub fn depth(map: ParamSet) -> (call: ApiCall)
    ensures
        is_public_call(
            call,
            ORIGIN_WITH_PORT@,
            "/webapi/v3/depth.json"@,
            map.entries(),
            Some(TIMEOUT_SECS),
        ),
{
    public_call(ORIGIN_WITH_PORT, "/webapi/v3/depth.json", map, Some(TIMEOUT_SECS))
}

/// Recent trades on a market. Parameters: `market`, and where wanted
/// `limit`, `timestamp`, `from`, `to`, `order_by`.
pub fn trades(map: ParamSet) -> (call: ApiCall)
    ensures
        is_public_call(call, ORIGIN@, "/webapi/v3/trades.json"@, map.entries(), Some(TIMEOUT_SECS)),
{
    public_call(ORIGIN, "/webapi/v3/trades.json", map, Some(TIMEOUT_SECS))
}

/// Recent trades on `market`, with few fields each.
pub fn trades_simple(market: &str) -> (call: ApiCall)
    ensures
        is_public_call(
            call,
            ORIGIN@,
            "/webapi/v3/trades_simple.json"@,
            seq![("market"@, market@)],
            Some(TIMEOUT_SECS),
        ),
{
    public_call(
        ORIGIN,
        "/webapi/v3/trades_simple.json",
        ParamSet::single("market", market),
        Some(TIMEOUT_SECS),
    )
}

/// Candlesticks of a market. Parameters: `market`, `trade_id`, and where
/// wanted `limit`, `period`, `timestamp`.
pub fn kline(map: ParamSet) -> (call: ApiCall)
    ensures
        is_public_call(call, ORIGIN@, "/webapi/v3/k.json"@, map.entries(), Some(TIMEOUT_SECS)),
{
    public_call(ORIGIN, "/webapi/v3/k.json", map, Some(TIMEOUT_SECS))
}

/// The exchange's clock, in seconds since the Unix epoch.
pub fn timestamp() -> (call: ApiCall)
    ensures
        is_public_call(call, ORIGIN@, "/webapi/v3/timestamp.json"@, Seq::<Entry>::empty(), None),
{
    public_call(ORIGIN, "/webapi/v3/timestamp.json", ParamSet::new(), None)
}

/// What the exchange knows of the currency `coin`.
pub fn currency_info(coin: &str) -> (call: ApiCall)
    ensures
        is_public_call(
            call,
            ORIGIN@,
            "/webapi/v3/currency/info.json"@,
            seq![("currency"@, coin@)],
            Some(TIMEOUT_SECS),
        ),
{
    public_call(
        ORIGIN,
        "/webapi/v3/currency/info.json",
        ParamSet::single("currency", coin),
        Some(TIMEOUT_SECS),
    )
}

/// The account holder: profile and balances.
pub fn me() -> (call: ApiCall)
    ensures
        is_signed_call(call, Method::Get, "/webapi/v3/members/me.json"@, Seq::<Entry>::empty()),
{
    signed_call(Method::Get, "/webapi/v3/members/me.json", ParamSet::new())
}

/// Registers the device `device_id` with the account.
pub fn register_device(device_id: &str) -> (call: ApiCall)
    ensures
        is_signed_call(
            call,
            Method::Post,
            "/webapi/v3/members/me/register_device.json"@,
            seq![("device"@, device_id@)],
        ),
{
    signed_call(
        Method::Post,
        "/webapi/v3/members/me/register_device.json",
        ParamSet::single("device", device_id),
    )
}

/// Deposits and withdrawals of the account. Optional parameters:
/// `currency`, `limit`, `type`, `from`, `to`, `page`, `order_by`.
pub fn history(map: ParamSet) -> (call: ApiCall)
    ensures
        is_signed_call(call, Method::Get, "/webapi/v3/account/history.json"@, map.entries()),
{
    signed_call(Method::Get, "/webapi/v3/account/history.json", map)
}

/// Deposits of the account. Optional parameters: `currency`, `limit`,
/// `state`.
pub fn deposits(map: ParamSet) -> (call: ApiCall)
    ensures
        is_signed_call(call, Method::Get, "/webapi/v3/deposits.json"@, map.entries()),
{
    signed_call(Method::Get, "/webapi/v3/deposits.json", map)
}

/// The deposit with transaction id `txid`.
pub fn deposit(txid: &str) -> (call: ApiCall)
    ensures
        is_signed_call(call, Method::Get, "/webapi/v3/deposit.json"@, seq![("txid"@, txid@)]),
{
    signed_call(Method::Get, "/webapi/v3/deposit.json", ParamSet::single("txid", txid))
}

/// The account's deposit address for `currency`.
pub fn deposit_address(currency: &str) -> (call: ApiCall)
    ensures
        is_signed_call(
            call,
            Method::Get,
            "/webapi/v3/deposit_address.json"@,
            seq![("currency"@, currency@)],
        ),
{
    signed_call(
        Method::Get,
        "/webapi/v3/deposit_address.json",
        ParamSet::single("currency", currency),
    )
}

/// Asks for a new deposit address for `currency`. The address is made in
/// the background and shows up under `deposit_address` later.
pub fn gen_deposit_address(currency: &str) -> (call: ApiCall)
    ensures
        is_signed_call(
            call,
            Method::Get,
            "/webapi/v3/gen_deposit_address.json"@,
            seq![("currency"@, currency@)],
        ),
{
    signed_call(
        Method::Get,
        "/webapi/v3/gen_deposit_address.json",
        ParamSet::single("currency", currency),
    )
}

/// The account's orders. Optional parameters: `market`, `state`, `limit`,
/// `page`, `order_by`.
pub fn orders_get(map: ParamSet) -> (call: ApiCall)
    ensures
        is_signed_call(call, Method::Get, "/webapi/v3/orders.json"@, map.entries()),
{
    signed_call(Method::Get, "/webapi/v3/orders.json", map)
}

/// Places an order. Parameters: `market`, `side`, `volume`, and where
/// wanted `price` and `ord_type`.
pub fn orders_post(map: ParamSet) -> (call: ApiCall)
    ensures
        is_signed_call(call, Method::Post, "/webapi/v3/orders.json"@, map.entries()),
{
    signed_call(Method::Post, "/webapi/v3/orders.json", map)
}

/// Past orders of the account. Optional parameters: `market`, `state`,
/// `limit`, `from`, `to`, `page`, `order_by`.
pub fn orders_history(map: ParamSet) -> (call: ApiCall)
    ensures
        is_signed_call(call, Method::Get, "/webapi/v3/orders/history.json"@, map.entries()),
{
    signed_call(Method::Get, "/webapi/v3/orders/history.json", map)
}

/// Places several orders at once.
pub fn orders_multi(map: ParamSet) -> (call: ApiCall)
    ensures
        is_signed_call(call, Method::Post, "/webapi/v3/orders/multi.json"@, map.entries()),
{
    signed_call(Method::Post, "/webapi/v3/orders/multi.json", map)
}

/// Cancels all orders of one side, `buy` or `sell`.
pub fn orders_clear(side: &str) -> (call: ApiCall)
    ensures
        is_signed_call(call, Method::Post, "/webapi/v3/orders/clear.json"@, seq![("side"@, side@)]),
{
    signed_call(Method::Post, "/webapi/v3/orders/clear.json", ParamSet::single("side", side))
}

/// The order with id `order_id`.
pub fn order(order_id: &str) -> (call: ApiCall)
    ensures
        is_signed_call(call, Method::Get, "/webapi/v3/order.json"@, seq![("order_id"@, order_id@)]),
{
    signed_call(Method::Get, "/webapi/v3/order.json", ParamSet::single("order_id", order_id))
}

/// Cancels the order with id `order_id`.
pub fn order_delete(order_id: &str) -> (call: ApiCall)
    ensures
        is_signed_call(
            call,
            Method::Post,
            "/webapi/v3/order/delete.json"@,
            seq![("order_id"@, order_id@)],
        ),
{
    signed_call(
        Method::Post,
        "/webapi/v3/order/delete.json",
        ParamSet::single("order_id", order_id),
    )
}

/// The order book of a market. Parameters: `market`, and where wanted
/// `asks_limit` and `bids_limit`.
pub fn order_book(map: ParamSet) -> (call: ApiCall)
    ensures
        is_signed_call(call, Method::Get, "/webapi/v3/order_book.json"@, map.entries()),
{
    signed_call(Method::Get, "/webapi/v3/order_book.json", map)
}

/// The account's executed trades. Parameters: `market`, and where wanted
/// `limit`, `timestamp`, `from`, `to`, `order_by`.
pub fn trades_my(map: ParamSet) -> (call: ApiCall)
    ensures
        is_signed_call(call, Method::Get, "/webapi/v3/trades/my.json"@, map.entries()),
{
    signed_call(Method::Get, "/webapi/v3/trades/my.json", map)
}

/// Recent trades as the account sees them. Optional parameters:
/// `market`, `limit`, `from`, `to`, `page`, `order_by`.
pub fn trades_history(map: ParamSet) -> (call: ApiCall)
    ensures
        is_signed_call(call, Method::Get, "/webapi/v3/trades/history.json"@, map.entries()),
{
    signed_call(Method::Get, "/webapi/v3/trades/history.json", map)
}

/// Candlesticks together with the trades not yet folded into them.
/// Parameters: `market`, `trade_id`, and where wanted `limit`, `period`,
/// `timestamp`.
pub fn kline_pending(map: ParamSet) -> (call: ApiCall)
    ensures
        is_signed_call(call, Method::Get, "/webapi/v3/k_with_pending_trades.json"@, map.entries()),
{
    signed_call(Method::Get, "/webapi/v3/k_with_pending_trades.json", map)
}

/// The account's interface settings.
pub fn settings_get() -> (call: ApiCall)
    ensures
        is_signed_call(call, Method::Get, "/webapi/v3/settings/get.json"@, Seq::<Entry>::empty()),
{
    signed_call(Method::Get, "/webapi/v3/settings/get.json", ParamSet::new())
}

/// One setting as a member of a JSON object: name and value as JSON
/// strings with `:` between them.
pub open spec fn settings_pair(e: Entry) -> Seq<char> {
    quoted(e.0) + seq![':'] + quoted(e.1)
}

/// The settings `s` in the order they are held, with `,` between
/// neighbours and nowhere else.
pub open spec fn settings_list(s: Seq<Entry>) -> Seq<char>
    decreases s.len(),
{
    if s.len() == 0 {
        Seq::empty()
    } else if s.len() == 1 {
        settings_pair(s[0])
    } else {
        settings_list(s.drop_last()) + seq![','] + settings_pair(s.last())
    }
}

/// The settings `s` as they are stored: a JSON object without spaces that
/// holds every setting as a string under its name. No settings give `{}`.
pub open spec fn settings_text(s: Seq<Entry>) -> Seq<char> {
    seq!['{'] + settings_list(s) + seq!['}']
}

/// The settings of `map` as they are stored.
pub fn settings_data(map: &ParamSet) -> (text: String)
    ensures
        text@ == settings_text(map.entries()),
{
    let pairs = map.to_vec();
    let ghost s = map.entries();
    let mut text = String::new();
    text.push('{');
    let mut i: usize = 0;
    assert(text@ =~= seq!['{'] + settings_list(s.take(0)));
    while i < pairs.len()
        invariant
            i <= pairs.len(),
            s == pairs_view(pairs@),
            text@ == seq!['{'] + settings_list(s.take(i as int)),
        decreases pairs.len() - i,
    {
        proof {
            assert(s.take(i + 1).drop_last() =~= s.take(i as int));
            assert(s.take(i + 1).last() == s[i as int]);
        }
        if i > 0 {
            text.push(',');
        }
        push_quoted(&mut text, pairs[i].0.as_str());
        text.push(':');
        push_quoted(&mut text, pairs[i].1.as_str());
        i += 1;
        assert(text@ =~= seq!['{'] + settings_list(s.take(i as int)));
    }
    assert(s.take(pairs.len() as int) =~= s);
    text.push('}');
    assert(text@ =~= settings_text(s));
    text
}

/// Stores interface settings, such as `darkmode`, `sound` or
/// `markets_filter`. The settings travel as one parameter, `data`, that
/// holds them as a JSON object.
pub fn settings_store(map: ParamSet) -> (call: ApiCall)
    ensures
        is_signed_call(
            call,
            Method::Post,
            "/webapi/v3/settings/store.json"@,
            seq![("data"@, settings_text(map.entries()))],
        ),
{
    let text = settings_data(&map);
    signed_call(
        Method::Post,
        "/webapi/v3/settings/store.json",
        ParamSet::single("data", text.as_str()),
    )
}

/// Withdrawals of the account. Parameters: `currency`, and where wanted
/// `limit` and `state`.
pub fn withdraws(map: ParamSet) -> (call: ApiCall)
    ensures
        is_signed_call(call, Method::Get, "/webapi/v3/withdraws.json"@, map.entries()),
{
    signed_call(Method::Get, "/webapi/v3/withdraws.json", map)
}

/// Withdraws funds. Parameters: `currency`, `fund_uid`, `sum`, and where
/// wanted `provider` and `speed_up`.
pub fn create_withdraw(map: ParamSet) -> (call: ApiCall)
    ensures
        is_signed_call(call, Method::Post, "/webapi/v3/create_withdraw.json"@, map.entries()),
{
    signed_call(Method::Post, "/webapi/v3/create_withdraw.json", map)
}

/// The withdrawal addresses stored for `currency`.
pub fn fund_sources(currency: &str) -> (call: ApiCall)
    ensures
        is_signed_call(
            call,
            Method::Get,
            "/webapi/v3/fund_sources.json"@,
            seq![("currency"@, currency@)],
        ),
{
    signed_call(Method::Get, "/webapi/v3/fund_sources.json", ParamSet::single("currency", currency))
}

/// Stores a withdrawal address. Parameters: `currency`, `uid`, `extra`,
/// and where wanted `fund-uid`.
pub fn fund_source_create(map: ParamSet) -> (call: ApiCall)
    ensures
        is_signed_call(call, Method::Post, "/webapi/v3/create_fund_source.json"@, map.entries()),
{
    signed_call(Method::Post, "/webapi/v3/create_fund_source.json", map)
}

/// Removes the stored withdrawal address with id `source_id`.
pub fn fund_source_remove(source_id: &str) -> (call: ApiCall)
    ensures
        is_signed_call(
            call,
            Method::Post,
            "/webapi/v3/remove_fund_source.json"@,
            seq![("id"@, source_id@)],
        ),
{
    signed_call(
        Method::Post,
        "/webapi/v3/remove_fund_source.json",
        ParamSet::single("id", source_id),
    )
}

/// The trading strategies on offer.
pub fn strategies_list() -> (call: ApiCall)
    ensures
        is_signed_call(
            call,
            Method::Get,
            "/webapi/v3/strategies/list.json"@,
            Seq::<Entry>::empty(),
        ),
{
    signed_call(Method::Get, "/webapi/v3/strategies/list.json", ParamSet::new())
}

/// The trading strategies of the account.
pub fn strategies_list_my() -> (call: ApiCall)
    ensures
        is_signed_call(call, Method::Get, "/webapi/v3/strategies/my.json"@, Seq::<Entry>::empty()),
{
    signed_call(Method::Get, "/webapi/v3/strategies/my.json", ParamSet::new())
}

} // verus!
