use msailor::config::{parse_config_lines, ConfigMap};

fn lines(ls: &[&str]) -> Vec<String> {
    ls.iter().map(|s| s.to_string()).collect()
}

#[test]
fn test_parse_config_lines() {
    let input = lines(&["key1 = value1", "key2=value2", "# This is a comment", "key3 = value3",
        "   "]);
    let m = parse_config_lines(&input);
    assert_eq!(m.get("key1"), Some(&"value1".to_string()));
    assert_eq!(m.get("key2"), Some(&"value2".to_string()));
    assert_eq!(m.get("key3"), Some(&"value3".to_string()));
    assert_eq!(m.len(), 3);
}

#[test]
fn test_parse_skips_comments_and_blanks() {
    let input = lines(&["# a = b", "", "   ", "real = yes"]);
    let m = parse_config_lines(&input);
    assert_eq!(m.len(), 1);
    assert_eq!(m.get("a"), None);
    assert_eq!(m.get("real"), Some(&"yes".to_string()));
}

#[test]
fn test_parse_line_without_equals_is_dropped() {
    let input = lines(&["no separator here", "k = v"]);
    let m = parse_config_lines(&input);
    assert_eq!(m.len(), 1);
    assert_eq!(m.get("k"), Some(&"v".to_string()));
}

#[test]
fn test_parse_splits_at_first_equals() {
    let input = lines(&["k = a=b"]);
    let m = parse_config_lines(&input);
    assert_eq!(m.get("k"), Some(&"a=b".to_string()));
}

#[test]
fn test_parse_last_value_wins() {
    let input = lines(&["k = one", "k = two"]);
    let m = parse_config_lines(&input);
    assert_eq!(m.len(), 1);
    assert_eq!(m.get("k"), Some(&"two".to_string()));
}

#[test]
fn test_insert_and_replace() {
    let mut m = ConfigMap::new();
    m.insert("a".to_string(), "1".to_string());
    m.insert("b".to_string(), "2".to_string());
    m.insert("a".to_string(), "3".to_string());
    assert_eq!(m.len(), 2);
    assert_eq!(m.get("a"), Some(&"3".to_string()));
    assert_eq!(m.get("b"), Some(&"2".to_string()));
    assert!(m.contains_key("a"));
    assert!(!m.contains_key("c"));
}

#[test]
fn test_or_insert_keeps_existing() {
    let mut m = ConfigMap::new();
    m.insert("a".to_string(), "1".to_string());
    m.or_insert("a".to_string(), "x".to_string());
    m.or_insert("b".to_string(), "y".to_string());
    assert_eq!(m.get("a"), Some(&"1".to_string()));
    assert_eq!(m.get("b"), Some(&"y".to_string()));
}

#[test]
fn test_merge_defaults_fills_only_missing() {
    let mut m = parse_config_lines(&lines(&["editor = vim", "path.sync = /custom/sync"]));
    let mut defaults = ConfigMap::new();
    defaults.insert("path.sync".to_string(), "/default/sync".to_string());
    defaults.insert("path.list".to_string(), "/default/list".to_string());
    m.merge_defaults(&defaults);
    assert_eq!(m.get("editor"), Some(&"vim".to_string()));
    assert_eq!(m.get("path.sync"), Some(&"/custom/sync".to_string()));
    assert_eq!(m.get("path.list"), Some(&"/default/list".to_string()));
    assert_eq!(m.len(), 3);
}

#[test]
fn test_pairs_reflect_entries() {
    let mut m = ConfigMap::new();
    m.insert("a".to_string(), "1".to_string());
    m.insert("b".to_string(), "2".to_string());
    let pairs = m.pairs();
    assert_eq!(pairs.len(), 2);
    assert_eq!(pairs[0], ("a".to_string(), "1".to_string()));
    assert_eq!(pairs[1], ("b".to_string(), "2".to_string()));
}
