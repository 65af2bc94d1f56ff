use cargo_fetcher_sync::names::{contains_sorted, name_le, sort_names};

fn strings(v: &[&str]) -> Vec<String> {
    v.iter().map(|s| s.to_string()).collect()
}

#[test]
fn lexicographic_order() {
    assert!(name_le("abc", "abd"));
    assert!(!name_le("abd", "abc"));
    assert!(name_le("ab", "abc"));
    assert!(!name_le("abc", "ab"));
    assert!(name_le("", ""));
    assert!(name_le("Z", "a"));
    assert!(name_le("foo", "foo"));
}

#[test]
fn sorting_cache_listing() {
    let names = strings(&["serde-1.0.0.crate", "bar-abcd1234", "anyhow-1.0.0.crate", "bar-abcd1234"]);
    let sorted = sort_names(&names);
    assert_eq!(
        sorted,
        strings(&["anyhow-1.0.0.crate", "bar-abcd1234", "bar-abcd1234", "serde-1.0.0.crate"])
    );
}

#[test]
fn binary_search_in_listing() {
    let sorted = sort_names(&strings(&["c", "a", "e", "b"]));
    assert!(contains_sorted(&sorted, &"a".to_string()));
    assert!(contains_sorted(&sorted, &"e".to_string()));
    assert!(!contains_sorted(&sorted, &"d".to_string()));
    assert!(!contains_sorted(&sorted, &"".to_string()));
    assert!(!contains_sorted(&Vec::new(), &"a".to_string()));
}
