use query_string::Query;

fn strings(values: &[&str]) -> Vec<String> {
    values.iter().map(|v| v.to_string()).collect()
}

fn pairs(items: &[(&str, &str)]) -> Vec<(String, String)> {
    items.iter().map(|(k, v)| (k.to_string(), v.to_string())).collect()
}

#[test]
fn values_are_grouped_in_their_order() {
    let query = Query::from_pairs(pairs(&[("a", "1"), ("b", "2"), ("a", "3"), ("a", "1")]));
    assert_eq!(query.get("a"), Some(&strings(&["1", "3", "1"])[..]));
    assert_eq!(query.get("b"), Some(&strings(&["2"])[..]));
    assert_eq!(query.get("c"), None);
}

#[test]
fn get_distinguishes_names_exactly() {
    let query = Query::from_pairs(pairs(&[("key", "v"), ("Key", "w"), ("", "x")]));
    assert_eq!(query.get("key"), Some(&strings(&["v"])[..]));
    assert_eq!(query.get("Key"), Some(&strings(&["w"])[..]));
    assert_eq!(query.get(""), Some(&strings(&["x"])[..]));
    assert_eq!(query.get("ke"), None);
    assert_eq!(query.get("keys"), None);
}

#[test]
fn get_or_gives_the_stored_values_when_present() {
    let query = Query::from_pairs(pairs(&[("a", "1"), ("a", "2"), ("empty", "")]));
    assert_eq!(query.get_or("a", "other"), &strings(&["1", "2"])[..]);
    assert_eq!(query.get_or("empty", "other"), &strings(&[""])[..]);
    assert!(matches!(query.get_or("a", "other"), std::borrow::Cow::Borrowed(_)));
}

#[test]
fn get_or_gives_the_default_alone_when_absent() {
    let query = Query::from_pairs(pairs(&[("a", "1")]));
    assert_eq!(query.get_or("b", "other"), &strings(&["other"])[..]);
    assert_eq!(query.get_or("b", ""), &strings(&[""])[..]);
    assert!(matches!(query.get_or("b", "other"), std::borrow::Cow::Owned(_)));
    let empty = Query::from_pairs(Vec::new());
    assert_eq!(empty.get_or("a", "d"), &strings(&["d"])[..]);
}

#[test]
fn equality_ignores_the_order_of_names() {
    let one = Query::from_pairs(pairs(&[("a", "1"), ("b", "2"), ("a", "3")]));
    let other = Query::from_pairs(pairs(&[("b", "2"), ("a", "1"), ("a", "3")]));
    assert_eq!(one, other);
    assert_eq!(other, one);
}

#[test]
fn equality_keeps_the_order_of_values() {
    let one = Query::from_pairs(pairs(&[("a", "1"), ("a", "3")]));
    let other = Query::from_pairs(pairs(&[("a", "3"), ("a", "1")]));
    assert_ne!(one, other);
}

#[test]
fn equality_sees_missing_and_extra_names() {
    let small = Query::from_pairs(pairs(&[("a", "1")]));
    let large = Query::from_pairs(pairs(&[("a", "1"), ("b", "2")]));
    let longer = Query::from_pairs(pairs(&[("a", "1"), ("a", "1")]));
    assert_ne!(small, large);
    assert_ne!(large, small);
    assert_ne!(small, longer);
    assert_ne!(small, Query::from_pairs(Vec::new()));
    assert_eq!(Query::from_pairs(Vec::new()), Query::from_pairs(Vec::new()));
}
