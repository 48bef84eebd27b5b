use graviex::params::ParamSet;

fn set_of(pairs: &[(&str, &str)]) -> ParamSet {
    let mut set = ParamSet::new();
    for (k, v) in pairs {
        set.insert(k, v);
    }
    set
}

#[test]
fn empty_set_has_empty_query() {
    assert_eq!(ParamSet::new().canonical_query(), "");
}

#[test]
fn single_entry_has_no_separator() {
    assert_eq!(set_of(&[("market", "ethbtc")]).canonical_query(), "market=ethbtc");
}

#[test]
fn entries_are_sorted_by_name() {
    let set = set_of(&[("tonce", "1"), ("order_id", "42"), ("access_key", "K"), ("b", ""), ("a", "z")]);
    assert_eq!(set.canonical_query(), "a=z&access_key=K&b=&order_id=42&tonce=1");
}

#[test]
fn insertion_order_does_not_matter() {
    let forward = set_of(&[("a", "1"), ("b", "2"), ("c", "3")]);
    let backward = set_of(&[("c", "3"), ("b", "2"), ("a", "1")]);
    let mixed = set_of(&[("b", "0"), ("c", "3"), ("a", "1"), ("b", "2")]);
    assert_eq!(forward.canonical_query(), "a=1&b=2&c=3");
    assert_eq!(backward.canonical_query(), forward.canonical_query());
    assert_eq!(mixed.canonical_query(), forward.canonical_query());
    assert_eq!(forward.canonical_query(), forward.canonical_query());
}

#[test]
fn names_are_compared_by_code_point() {
    let set = set_of(&[("\u{20ac}", "3"), ("z", "1"), ("\u{e9}", "2"), ("Z", "0"), ("\u{1f600}", "4")]);
    assert_eq!(set.canonical_query(), "Z=0&z=1&\u{e9}=2&\u{20ac}=3&\u{1f600}=4");
}

#[test]
fn a_prefix_comes_before_its_extensions() {
    let set = set_of(&[("ab", "2"), ("a", "1"), ("abc", "3"), ("", "0")]);
    assert_eq!(set.canonical_query(), "=0&a=1&ab=2&abc=3");
}

#[test]
fn query_has_no_leading_or_trailing_separator() {
    let set = set_of(&[("x", "1"), ("y", ""), ("w", "2")]);
    let query = set.canonical_query();
    assert_eq!(query, "w=2&x=1&y=");
    assert!(!query.starts_with('&'));
    assert!(!query.ends_with('&'));
    assert_eq!(query.matches('&').count(), 2);
}

#[test]
fn values_are_not_escaped_in_the_signed_text() {
    let set = set_of(&[("from", "2021-07-12 12:49:13"), ("data", "{a:b,}")]);
    assert_eq!(set.canonical_query(), "data={a:b,}&from=2021-07-12 12:49:13");
}
