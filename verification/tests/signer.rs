use graviex::endpoints::{deposit, markets, orders_post, trades};
use graviex::method::Method;
use graviex::params::ParamSet;
use graviex::request::{absolute_url, public_call, signed_call};
use graviex::signer::{plain_request, SignError, Signer};
use std::time::{SystemTime, UNIX_EPOCH};

fn owned(pairs: &[(&str, &str)]) -> Vec<(String, String)> {
    pairs.iter().map(|(k, v)| (k.to_string(), v.to_string())).collect()
}

#[test]
fn absolute_url_is_origin_then_path() {
    assert_eq!(absolute_url("https://graviex.net", "/webapi/v3/order.json"), "https://graviex.net/webapi/v3/order.json");
    assert_eq!(absolute_url("", ""), "");
}

#[test]
fn sign_at_builds_the_signed_request() {
    let mut signer = Signer::new("K", "PRIVKEY");
    let request = signer.sign_at(deposit("abc"), 5);
    assert_eq!(request.method, Method::Get);
    assert_eq!(request.url, "https://graviex.net/webapi/v3/deposit.json");
    assert_eq!(request.timeout_secs, Some(2));
    assert_eq!(
        request.params.to_vec(),
        owned(&[
            ("txid", "abc"),
            ("tonce", "5001"),
            ("access_key", "K"),
            ("signature", "7f9a3df5f810f03aea5890ccada7c645bcc2d951bcd4a5b33378283da9f0d5b1"),
        ])
    );
    assert_eq!(
        request.target(),
        "https://graviex.net/webapi/v3/deposit.json?txid=abc&tonce=5001&access_key=K&signature=7f9a3df5f810f03aea5890ccada7c645bcc2d951bcd4a5b33378283da9f0d5b1"
    );
}

#[test]
fn each_signed_call_steps_the_counter() {
    let mut signer = Signer::new("K", "S");
    let first = signer.sign_at(deposit("abc"), 1620000000);
    let second = signer.sign_at(deposit("abc"), 1620000000);
    assert_eq!(first.params.get("tonce"), Some("1620000000001".to_string()));
    assert_eq!(second.params.get("tonce"), Some("1620000000002".to_string()));
    assert_ne!(first.params.get("signature"), second.params.get("signature"));
}

#[test]
fn signed_post_request_keeps_method_and_has_a_body() {
    let mut map = ParamSet::new();
    map.insert("market", "ethbtc");
    let mut signer = Signer::new("K", "S");
    let request = signer.prepare_at(orders_post(map), 9);
    assert_eq!(request.method, Method::Post);
    assert_eq!(request.url, "https://graviex.net/webapi/v3/orders.json");
    assert_eq!(request.target(), "https://graviex.net/webapi/v3/orders.json");
    let body = request.body().unwrap();
    assert!(body.starts_with("market=ethbtc&tonce=9001&access_key=K&signature="));
    assert_eq!(body.len(), "market=ethbtc&tonce=9001&access_key=K&signature=".len() + 64);
}

#[test]
fn public_request_carries_only_the_callers_parameters() {
    let mut map = ParamSet::new();
    map.insert("market", "btcusd");
    map.insert("limit", "5");
    let request = plain_request(trades(map));
    assert_eq!(request.method, Method::Get);
    assert_eq!(request.url, "https://graviex.net/webapi/v3/trades.json");
    assert_eq!(request.timeout_secs, Some(2));
    assert_eq!(request.params.to_vec(), owned(&[("market", "btcusd"), ("limit", "5")]));
    assert!(!request.params.contains_key("access_key"));
    assert!(!request.params.contains_key("tonce"));
    assert!(!request.params.contains_key("signature"));
    assert_eq!(request.target(), "https://graviex.net/webapi/v3/trades.json?market=btcusd&limit=5");
}

#[test]
fn prepare_leaves_public_calls_alone() {
    let mut signer = Signer::new("K", "S");
    let request = signer.prepare(markets()).unwrap();
    assert_eq!(request.url, "https://graviex.net/webapi/v3/markets.json");
    assert_eq!(request.params.len(), 0);
    assert_eq!(request.timeout_secs, None);
    let request = signer.prepare_at(markets(), 77);
    assert_eq!(request.params.len(), 0);
    assert_eq!(signer.next_tonce(1), "1001");
}

#[test]
fn prepare_signs_for_the_current_second() {
    let before = SystemTime::now().duration_since(UNIX_EPOCH).unwrap().as_secs();
    let mut signer = Signer::new("PUBKEY", "PRIVKEY");
    let outcome = signer.prepare(deposit("abc"));
    let after = SystemTime::now().duration_since(UNIX_EPOCH).unwrap().as_secs();
    let request = outcome.unwrap();
    let tonce = request.params.get("tonce").unwrap();
    assert!(tonce.ends_with("001"));
    let seconds: u64 = tonce[..tonce.len() - 3].parse().unwrap();
    assert!(before <= seconds && seconds <= after);
    assert_eq!(request.params.get("access_key"), Some("PUBKEY".to_string()));
    assert_eq!(request.params.get("txid"), Some("abc".to_string()));
    assert_eq!(request.params.get("signature").unwrap().len(), 64);
    assert_eq!(request.params.len(), 4);
    assert_eq!(signer.next_tonce(1), "1002");
}

#[test]
fn call_constructors_set_every_field() {
    let call = public_call("https://graviex.net:443", "/x", ParamSet::single("a", "1"), Some(7));
    assert_eq!(call.method, Method::Get);
    assert_eq!(call.origin, "https://graviex.net:443");
    assert_eq!(call.path, "/x");
    assert_eq!(call.params.to_vec(), owned(&[("a", "1")]));
    assert!(!call.signed);
    assert_eq!(call.timeout_secs, Some(7));
    let call = signed_call(Method::Post, "/y", ParamSet::new());
    assert_eq!(call.method, Method::Post);
    assert_eq!(call.origin, "https://graviex.net");
    assert_eq!(call.path, "/y");
    assert!(call.signed);
    assert_eq!(call.timeout_secs, Some(2));
}

#[test]
fn clock_error_has_one_variant() {
    assert_eq!(SignError::ClockBeforeEpoch, SignError::ClockBeforeEpoch);
    assert_eq!(format!("{:?}", SignError::ClockBeforeEpoch), "ClockBeforeEpoch");
}
