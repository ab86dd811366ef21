use msailor::filter::filter_items;

fn items(names: &[&str]) -> Vec<String> {
    names.iter().map(|s| s.to_string()).collect()
}

#[test]
fn test_empty_query_keeps_everything() {
    let v = items(&["Apple", "Banana", "Cherry"]);
    assert_eq!(filter_items(&v, ""), v);
}

#[test]
fn test_whitespace_only_query_keeps_everything() {
    let v = items(&["Apple", "Banana"]);
    assert_eq!(filter_items(&v, "  \t "), v);
}

#[test]
fn test_case_insensitive_substring() {
    let v = items(&["Apple", "Banana", "Cherry"]);
    assert_eq!(filter_items(&v, "AN"), items(&["Banana"]));
    assert_eq!(filter_items(&v, "aPp"), items(&["Apple"]));
}

#[test]
fn test_all_tokens_must_match() {
    let v = items(&["red apple pie", "green apple", "red cherry pie"]);
    assert_eq!(filter_items(&v, "red pie"), items(&["red apple pie", "red cherry pie"]));
    assert_eq!(filter_items(&v, "red apple"), items(&["red apple pie"]));
    assert_eq!(filter_items(&v, "apple cherry"), items(&[]));
}

#[test]
fn test_order_is_preserved() {
    let v = items(&["bb", "ab", "ba", "aa"]);
    assert_eq!(filter_items(&v, "a"), items(&["ab", "ba", "aa"]));
}

#[test]
fn test_rerun_is_identical() {
    let v = items(&["Apple", "Banana", "Cherry"]);
    let once = filter_items(&v, "an");
    let twice = filter_items(&once, "an");
    assert_eq!(once, twice);
    assert_eq!(filter_items(&v, "an"), once);
}

#[test]
fn test_no_match_gives_empty() {
    let v = items(&["Apple", "Banana"]);
    assert!(filter_items(&v, "zzz").is_empty());
}
