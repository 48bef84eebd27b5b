use graviex::params::ParamSet;

fn owned(pairs: &[(&str, &str)]) -> Vec<(String, String)> {
    pairs.iter().map(|(k, v)| (k.to_string(), v.to_string())).collect()
}

#[test]
fn new_set_is_empty() {
    let set = ParamSet::new();
    assert_eq!(set.len(), 0);
    assert_eq!(set.to_vec(), owned(&[]));
    assert!(!set.contains_key("market"));
    assert_eq!(set.get("market"), None);
}

#[test]
fn insert_appends_new_names_in_order() {
    let mut set = ParamSet::new();
    set.insert("market", "ethbtc");
    set.insert("limit", "10");
    set.insert("", "");
    assert_eq!(set.len(), 3);
    assert_eq!(set.to_vec(), owned(&[("market", "ethbtc"), ("limit", "10"), ("", "")]));
    assert_eq!(set.get("limit"), Some("10".to_string()));
    assert_eq!(set.get(""), Some(String::new()));
    assert!(set.contains_key("market"));
    assert!(!set.contains_key("Market"));
}

#[test]
fn insert_overwrites_in_place() {
    let mut set = ParamSet::new();
    set.insert("a", "1");
    set.insert("b", "2");
    set.insert("a", "3");
    assert_eq!(set.len(), 2);
    assert_eq!(set.to_vec(), owned(&[("a", "3"), ("b", "2")]));
    assert_eq!(set.get("a"), Some("3".to_string()));
}

#[test]
fn single_holds_one_entry() {
    let set = ParamSet::single("currency", "btc");
    assert_eq!(set.to_vec(), owned(&[("currency", "btc")]));
}

#[test]
fn duplicate_is_independent_of_the_source() {
    let mut set = ParamSet::new();
    set.insert("a", "1");
    let mut copy = set.duplicate();
    copy.insert("b", "2");
    copy.insert("a", "9");
    assert_eq!(set.to_vec(), owned(&[("a", "1")]));
    assert_eq!(copy.to_vec(), owned(&[("a", "9"), ("b", "2")]));
}
