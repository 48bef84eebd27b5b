use graviex::encoding::{encode_pairs, push_encoded};
use graviex::method::Method;
use graviex::params::ParamSet;
use graviex::request::OutgoingRequest;

fn encoded(text: &str) -> String {
    let mut out = String::new();
    push_encoded(&mut out, text);
    out
}

fn request(method: Method, pairs: &[(&str, &str)]) -> OutgoingRequest {
    let mut params = ParamSet::new();
    for (k, v) in pairs {
        params.insert(k, v);
    }
    OutgoingRequest { method, url: "https://graviex.net/webapi/v3/orders.json".to_string(), params, timeout_secs: Some(2) }
}

#[test]
fn unreserved_characters_stand_for_themselves() {
    let plain = "ABCDEFGHIJKLMNOPQRSTUVWXYZabcdefghijklmnopqrstuvwxyz0123456789-._~";
    assert_eq!(encoded(plain), plain);
    assert_eq!(encoded(""), "");
}

#[test]
fn other_bytes_are_written_in_upper_case_hex() {
    assert_eq!(encoded(" "), "%20");
    assert_eq!(encoded("a b"), "a%20b");
    assert_eq!(encoded("&=+%?/#"), "%26%3D%2B%25%3F%2F%23");
    assert_eq!(encoded("{a:b,}"), "%7Ba%3Ab%2C%7D");
    assert_eq!(encoded("2021-07-12 12:49:13"), "2021-07-12%2012%3A49%3A13");
    assert_eq!(encoded("\u{e9}"), "%C3%A9");
    assert_eq!(encoded("\u{20ac}"), "%E2%82%AC");
    assert_eq!(encoded("\u{0}\u{7f}@[`{"), "%00%7F%40%5B%60%7B");
    assert_eq!(encoded("/:"), "%2F%3A");
}

#[test]
fn push_encoded_appends() {
    let mut out = "x=".to_string();
    push_encoded(&mut out, "1 2");
    assert_eq!(out, "x=1%202");
}

#[test]
fn pairs_are_joined_in_order() {
    let pairs = vec![
        ("b".to_string(), "2".to_string()),
        ("a".to_string(), "1 & 2".to_string()),
        ("".to_string(), "".to_string()),
    ];
    assert_eq!(encode_pairs(&pairs), "b=2&a=1%20%26%202&=");
    assert_eq!(encode_pairs(&Vec::new()), "");
    assert_eq!(encode_pairs(&vec![("k".to_string(), "v".to_string())]), "k=v");
}

#[test]
fn get_request_carries_parameters_in_the_address() {
    let req = request(Method::Get, &[("market", "ethbtc"), ("from", "a b")]);
    assert_eq!(req.encoded_params(), "market=ethbtc&from=a%20b");
    assert_eq!(req.target(), "https://graviex.net/webapi/v3/orders.json?market=ethbtc&from=a%20b");
    assert_eq!(req.body(), None);
}

#[test]
fn get_request_without_parameters_has_no_question_mark() {
    let req = request(Method::Get, &[]);
    assert_eq!(req.target(), "https://graviex.net/webapi/v3/orders.json");
    assert_eq!(req.body(), None);
}

#[test]
fn post_request_carries_parameters_in_the_body() {
    let req = request(Method::Post, &[("market", "ethbtc"), ("volume", "1.5")]);
    assert_eq!(req.target(), "https://graviex.net/webapi/v3/orders.json");
    assert_eq!(req.body(), Some("market=ethbtc&volume=1.5".to_string()));
    let empty = request(Method::Post, &[]);
    assert_eq!(empty.body(), Some(String::new()));
}
