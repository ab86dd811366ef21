use msailor::paths::{derive_paths, Paths};

#[test]
fn test_paths_to_hash_map() {
    let paths = Paths {
        config_dir: "config.cfg".to_string(),
        config_file: "config_file.cfg".to_string(),
        quickmarks: "quickmarks".to_string(),
        data_dir: "/var/data".to_string(),
        tmp_dir: "/tmp".to_string(),
        history: "/var/history".to_string(),
        sync_dir: "/var/sync".to_string(),
        list_dir: "/var/list".to_string(),
        plug_dir: "/var/plug".to_string(),
    };

    let map = paths.to_hash_map();

    let expected = [
        ("path.config_dir", "config.cfg"),
        ("path.config_file", "config_file.cfg"),
        ("path.quickmarks", "quickmarks"),
        ("path.data", "/var/data"),
        ("path.tmp", "/tmp"),
        ("path.history", "/var/history"),
        ("path.sync", "/var/sync"),
        ("path.list", "/var/list"),
        ("path.plug", "/var/plug"),
    ];

    // Check if the map has the same entries as the expected ones
    assert_eq!(map.len(), expected.len());
    for (key, value) in expected.iter() {
        assert_eq!(map.get(key), Some(&value.to_string()), "entry for {}", key);
    }
}

#[test]
fn test_derive_paths_layout() {
    let p = derive_paths("/home/u/.config", "/home/u/.local/share", "/home/u/.cache", '/');
    assert_eq!(p.config_dir, "/home/u/.config/msailor");
    assert_eq!(p.config_file, "/home/u/.config/msailor/config");
    assert_eq!(p.quickmarks, "/home/u/.config/msailor/quickmarks");
    assert_eq!(p.data_dir, "/home/u/.local/share/msailor");
    assert_eq!(p.tmp_dir, "/home/u/.cache/msailor");
    assert_eq!(p.history, "/home/u/.local/share/msailor/history");
    assert_eq!(p.sync_dir, "/home/u/.local/share/msailor/sync");
    assert_eq!(p.list_dir, "/home/u/.config/msailor/list");
    assert_eq!(p.plug_dir, "/home/u/.local/share/msailor/plug");
}

#[test]
fn test_derive_paths_not_empty() {
    let p = derive_paths("c", "d", "t", '/');
    assert!(!p.config_dir.is_empty());
    assert!(!p.data_dir.is_empty());
    assert!(!p.tmp_dir.is_empty());
    assert!(!p.history.is_empty());
    assert!(!p.sync_dir.is_empty());
    assert!(!p.list_dir.is_empty());
    assert!(!p.plug_dir.is_empty());
}
