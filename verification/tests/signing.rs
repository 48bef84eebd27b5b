use graviex::method::Method;
use graviex::params::ParamSet;
use graviex::signature::{message_tag, sign_message, signature_message, signature_of_tag};
use graviex::signer::{sign_with_tonce, with_identity, with_signature};

fn owned(pairs: &[(&str, &str)]) -> Vec<(String, String)> {
    pairs.iter().map(|(k, v)| (k.to_string(), v.to_string())).collect()
}

const ORDER_SIGNATURE: &str = "14df42f9033ee09e3f8694f2fcaa86455be95e21f938ed5731c3f1198901c87a";

#[test]
fn method_names_are_upper_case() {
    assert_eq!(Method::Get.as_str(), "GET");
    assert_eq!(Method::Post.as_str(), "POST");
}

#[test]
fn message_joins_method_path_and_query() {
    assert_eq!(
        signature_message(Method::Get, "/webapi/v3/order.json", "access_key=PUBKEY&order_id=42&tonce=1620000000007"),
        "GET|/webapi/v3/order.json|access_key=PUBKEY&order_id=42&tonce=1620000000007"
    );
    assert_eq!(signature_message(Method::Post, "/p", ""), "POST|/p|");
    assert_eq!(signature_message(Method::Get, "", ""), "GET||");
}

#[test]
fn tag_is_hmac_sha256() {
    let tag = message_tag("my secret and secure key", "input message");
    assert_eq!(
        tag,
        vec![
            0x97, 0xd2, 0xa5, 0x69, 0x05, 0x9b, 0xbc, 0xd8, 0xea, 0xd4, 0x44, 0x4f, 0xf9, 0x90,
            0x71, 0xf4, 0xc0, 0x1d, 0x00, 0x5b, 0xce, 0xfe, 0x0d, 0x35, 0x67, 0xe1, 0xbe, 0x62,
            0x8e, 0x5f, 0xdc, 0xd9
        ]
    );
    assert_eq!(message_tag("", "").len(), 32);
}

#[test]
fn signature_of_tag_is_lower_case_hex() {
    assert_eq!(signature_of_tag(&[]), "");
    assert_eq!(signature_of_tag(&[0x00, 0x0f, 0x10, 0xab, 0xff]), "000f10abff");
    assert_eq!(signature_of_tag(&[1, 2, 3, 15, 16]), "0102030f10");
}

#[test]
fn sign_message_matches_known_vectors() {
    assert_eq!(
        sign_message("key", "The quick brown fox jumps over the lazy dog"),
        "f7bc83f430538424b13298e6aa6fb143ef4d59a14946175997479dbc2d1a3cd8"
    );
    assert_eq!(
        sign_message("", ""),
        "b613679a0814d9ec772f95d778c35fc5ff1697c493715653c6c712144292c5ad"
    );
}

#[test]
fn with_identity_puts_token_and_access_key_last() {
    let params = ParamSet::single("order_id", "42");
    let working = with_identity(&params, "PUBKEY", "1620000000007");
    assert_eq!(
        working.to_vec(),
        owned(&[("order_id", "42"), ("tonce", "1620000000007"), ("access_key", "PUBKEY")])
    );
    assert_eq!(working.canonical_query(), "access_key=PUBKEY&order_id=42&tonce=1620000000007");
    assert_eq!(params.to_vec(), owned(&[("order_id", "42")]));
}

#[test]
fn with_signature_stores_the_hex_of_the_tag() {
    let working = ParamSet::single("a", "1");
    let signed = with_signature(working, &[0xde, 0xad, 0xbe, 0xef]);
    assert_eq!(signed.to_vec(), owned(&[("a", "1"), ("signature", "deadbeef")]));
    let mut stale = ParamSet::single("signature", "old");
    stale.insert("a", "1");
    let signed = with_signature(stale, &[0x01]);
    assert_eq!(signed.to_vec(), owned(&[("signature", "01"), ("a", "1")]));
}

#[test]
fn signed_order_lookup_has_known_signature() {
    let params = ParamSet::single("order_id", "42");
    let signed = sign_with_tonce(
        "PUBKEY",
        "PRIVKEY",
        Method::Get,
        "/webapi/v3/order.json",
        &params,
        "1620000000007",
    );
    assert_eq!(
        signed.to_vec(),
        owned(&[
            ("order_id", "42"),
            ("tonce", "1620000000007"),
            ("access_key", "PUBKEY"),
            ("signature", ORDER_SIGNATURE),
        ])
    );
}

#[test]
fn signing_twice_gives_the_same_signature() {
    let params = ParamSet::single("order_id", "42");
    let first = sign_with_tonce("PUBKEY", "PRIVKEY", Method::Get, "/webapi/v3/order.json", &params, "1620000000007");
    let second = sign_with_tonce("PUBKEY", "PRIVKEY", Method::Get, "/webapi/v3/order.json", &params, "1620000000007");
    assert_eq!(first.to_vec(), second.to_vec());
    assert_eq!(first.get("signature"), Some(ORDER_SIGNATURE.to_string()));
}

#[test]
fn signature_changes_with_method_path_parameter_token_and_secret() {
    let params = ParamSet::single("order_id", "42");
    let sign = |secret: &str, method: Method, path: &str, params: &ParamSet, tonce: &str| {
        sign_with_tonce("PUBKEY", secret, method, path, params, tonce).get("signature").unwrap()
    };
    let base = sign("PRIVKEY", Method::Get, "/webapi/v3/order.json", &params, "1620000000007");
    assert_eq!(base, ORDER_SIGNATURE);
    assert_eq!(
        sign("PRIVKEY", Method::Post, "/webapi/v3/order.json", &params, "1620000000007"),
        "3d0702493e8e8a777853c7decd1804dc32eb095df5c7f09360cfa004abb0021d"
    );
    assert_eq!(
        sign("PRIVKEY", Method::Get, "/webapi/v3/order.jsom", &params, "1620000000007"),
        "68d64f8ddf7ebf0530af98fbb4683dbc7294080be84dd2430bdfc324a5a4c43d"
    );
    let other = ParamSet::single("order_id", "43");
    assert_eq!(
        sign("PRIVKEY", Method::Get, "/webapi/v3/order.json", &other, "1620000000007"),
        "7e14006708fc15e8d89177c5cca6566a382d893c53e3c4a9b0a6572d9d304214"
    );
    assert_ne!(sign("PRIVKEY", Method::Get, "/webapi/v3/order.json", &params, "1620000000008"), base);
    assert_ne!(sign("PRIVKEZ", Method::Get, "/webapi/v3/order.json", &params, "1620000000007"), base);
}

#[test]
fn signature_does_not_depend_on_insertion_order() {
    let mut forward = ParamSet::new();
    forward.insert("market", "ethbtc");
    forward.insert("side", "buy");
    forward.insert("volume", "1.5");
    forward.insert("price", "0.05");
    let mut backward = ParamSet::new();
    backward.insert("price", "0.05");
    backward.insert("volume", "1.5");
    backward.insert("side", "buy");
    backward.insert("market", "ethbtc");
    let expected = "86d0cce8d4d0219e5421d66d69cf1155f1459b0980b8ddd385e7b2545bb29a3b";
    let a = sign_with_tonce("AK", "s3cr\u{e9}t", Method::Post, "/webapi/v3/orders.json", &forward, "1700000000998");
    let b = sign_with_tonce("AK", "s3cr\u{e9}t", Method::Post, "/webapi/v3/orders.json", &backward, "1700000000998");
    assert_eq!(a.get("signature"), Some(expected.to_string()));
    assert_eq!(b.get("signature"), Some(expected.to_string()));
}

#[test]
fn empty_parameters_are_signed_over_token_and_access_key() {
    let signed = sign_with_tonce(
        "PUBKEY",
        "PRIVKEY",
        Method::Get,
        "/webapi/v3/members/me.json",
        &ParamSet::new(),
        "1620000000001",
    );
    assert_eq!(
        signed.to_vec(),
        owned(&[
            ("tonce", "1620000000001"),
            ("access_key", "PUBKEY"),
            ("signature", "b09fe586df6225c44bab3245e9f6bd9c1d6023a8957fd1e2f4bfea734f8aacbe"),
        ])
    );
    let bare = with_identity(&ParamSet::new(), "PUBKEY", "1620000000001").canonical_query();
    assert_eq!(bare, "access_key=PUBKEY&tonce=1620000000001");
    assert_eq!(bare.matches('&').count(), 1);
}

#[test]
fn reserved_names_from_the_caller_are_overwritten() {
    let mut params = ParamSet::new();
    params.insert("order_id", "42");
    params.insert("tonce", "1");
    params.insert("access_key", "x");
    params.insert("signature", "zz");
    let signed = sign_with_tonce("PUBKEY", "PRIVKEY", Method::Get, "/webapi/v3/order.json", &params, "1620000000007");
    assert_eq!(
        signed.to_vec(),
        owned(&[
            ("order_id", "42"),
            ("tonce", "1620000000007"),
            ("access_key", "PUBKEY"),
            ("signature", "887d8c3c50c52fe901f2dd0a03425f5f4de119050330fce0a5d33bcc37b8e81f"),
        ])
    );
}

#[test]
fn secret_key_is_not_among_the_signed_parameters() {
    let signed = sign_with_tonce("PUBKEY", "PRIVKEY", Method::Get, "/webapi/v3/order.json", &ParamSet::new(), "1");
    for (name, value) in signed.to_vec() {
        assert!(!name.contains("PRIVKEY"));
        assert!(!value.contains("PRIVKEY"));
    }
}
