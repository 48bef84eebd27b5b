use graviex::signer::Signer;
use graviex::tonce::{decimal_string, format_tonce, TonceCounter, COUNTER_PERIOD};
use std::collections::HashSet;

#[test]
fn decimal_string_writes_plain_decimal() {
    assert_eq!(decimal_string(0), "0");
    assert_eq!(decimal_string(7), "7");
    assert_eq!(decimal_string(10), "10");
    assert_eq!(decimal_string(1620000000), "1620000000");
    assert_eq!(decimal_string(u64::MAX), "18446744073709551615");
}

#[test]
fn tonce_suffix_has_three_digits() {
    assert_eq!(format_tonce(1620000000, 0), "1620000000000");
    assert_eq!(format_tonce(1620000000, 1), "1620000000001");
    assert_eq!(format_tonce(1620000000, 7), "1620000000007");
    assert_eq!(format_tonce(1620000000, 42), "1620000000042");
    assert_eq!(format_tonce(1620000000, 998), "1620000000998");
    assert_eq!(format_tonce(0, 0), "0000");
    assert_eq!(format_tonce(u64::MAX, 998), "18446744073709551615998");
}

#[test]
fn tonce_of_a_wide_counter_is_not_cut() {
    assert_eq!(format_tonce(5, 1000), "51000");
    assert_eq!(format_tonce(5, u16::MAX), "565535");
}

#[test]
fn counter_starts_at_zero_and_steps_to_one() {
    let mut counter = TonceCounter::new();
    assert_eq!(counter.current(), 0);
    assert_eq!(counter.advance(), 1);
    assert_eq!(counter.current(), 1);
    assert_eq!(counter.advance(), 2);
}

#[test]
fn counter_wraps_from_998_to_zero() {
    assert_eq!(COUNTER_PERIOD, 999);
    let mut counter = TonceCounter::new();
    let mut last = 0;
    for _ in 0..998 {
        last = counter.advance();
    }
    assert_eq!(last, 998);
    assert_eq!(counter.advance(), 0);
    assert_eq!(counter.advance(), 1);
}

#[test]
fn thousand_tokens_in_one_second_repeat_at_the_thousandth() {
    let mut signer = Signer::new("PUBKEY", "PRIVKEY");
    let mut tokens = Vec::new();
    for _ in 0..1000 {
        tokens.push(signer.next_tonce(1620000000));
    }
    assert_eq!(tokens[0], "1620000000001");
    assert_eq!(tokens[997], "1620000000998");
    assert_eq!(tokens[998], "1620000000000");
    assert_eq!(tokens[999], "1620000000001");
    let first: HashSet<&String> = tokens[..999].iter().collect();
    assert_eq!(first.len(), 999);
    assert_eq!(tokens[999], tokens[0]);
    for token in &tokens {
        assert_eq!(token.len(), 13);
        assert!(token.starts_with("1620000000"));
        assert!(token.chars().all(|c| c.is_ascii_digit()));
    }
}

#[test]
fn tokens_of_different_seconds_differ() {
    let mut signer = Signer::new("PUBKEY", "PRIVKEY");
    assert_eq!(signer.next_tonce(1), "1001");
    assert_eq!(signer.next_tonce(2), "2002");
    assert_eq!(signer.next_tonce(1), "1003");
}
