use msailor::config::ConfigMap;
use msailor::dispatch::{
    dispatch_item, match_command, parse_tag, resolve_editor, CommandId, EditorChoice, MenuAction,
    Tag,
};
use msailor::repo::{repo_name, sample_repo_files};
use msailor::strutil::{contains_str, starts_with, trim};

#[test]
fn test_parse_tag_variants() {
    assert_eq!(parse_tag("[list] todo"), Tag::List("todo".to_string()));
    assert_eq!(parse_tag("[history]"), Tag::History);
    assert_eq!(parse_tag("[config]"), Tag::Config);
    assert_eq!(parse_tag("[quickmark] home"), Tag::Quickmark("home".to_string()));
    assert_eq!(parse_tag("[file] notes.txt"), Tag::File("notes.txt".to_string()));
    assert_eq!(parse_tag("[plug] colors"), Tag::Plug("colors".to_string()));
    assert_eq!(parse_tag("[command] update"), Tag::Command("update".to_string()));
    assert_eq!(parse_tag("plain text"), Tag::Untagged);
}

#[test]
fn test_parse_tag_synced_entries_are_untagged() {
    assert_eq!(parse_tag("[list-repo1] list1"), Tag::Untagged);
    assert_eq!(parse_tag("[quickmark-repo1] quickmark1"), Tag::Untagged);
}

#[test]
fn test_dispatch_item_actions() {
    assert_eq!(dispatch_item("[list] todo"), MenuAction::OpenList("todo".to_string()));
    assert_eq!(dispatch_item("[history]"), MenuAction::OpenHistory);
    assert_eq!(dispatch_item("[config]"), MenuAction::OpenConfig);
    assert_eq!(dispatch_item("[quickmark] home"), MenuAction::OpenQuickmarks);
    assert_eq!(dispatch_item("[file] notes"), MenuAction::NoOp);
    assert_eq!(dispatch_item("[plug] colors"), MenuAction::NoOp);
    assert_eq!(dispatch_item("unrecognised"), MenuAction::NoOp);
}

#[test]
fn test_match_command_exact() {
    assert_eq!(match_command("create-sample-repo"), Some(CommandId::CreateSampleRepo));
    assert_eq!(match_command("config-edit"), Some(CommandId::ConfigEdit));
    assert_eq!(match_command("history-edit"), Some(CommandId::HistoryEdit));
    assert_eq!(match_command("list-add"), Some(CommandId::ListAdd));
    assert_eq!(match_command("indexwp"), Some(CommandId::Indexwp));
    assert_eq!(match_command("  config-edit  "), Some(CommandId::ConfigEdit));
    assert_eq!(match_command("config"), None, "a prefix is not a match");
    assert_eq!(match_command(""), None);
}

#[test]
fn test_resolve_editor_order() {
    let mut cfg = ConfigMap::new();
    cfg.insert("editor".to_string(), "hx".to_string());
    let visual = "code".to_string();
    let editor = "nano".to_string();
    assert_eq!(
        resolve_editor(&cfg, Some(&visual), Some(&editor)),
        EditorChoice::Program("hx".to_string())
    );
    let empty_cfg = ConfigMap::new();
    assert_eq!(
        resolve_editor(&empty_cfg, Some(&visual), Some(&editor)),
        EditorChoice::Program("code".to_string())
    );
    assert_eq!(
        resolve_editor(&empty_cfg, None, Some(&editor)),
        EditorChoice::Program("nano".to_string())
    );
    assert_eq!(resolve_editor(&empty_cfg, None, None), EditorChoice::BuiltIn);
}

#[test]
fn test_resolve_editor_skips_empty_values() {
    let mut cfg = ConfigMap::new();
    cfg.insert("editor".to_string(), "".to_string());
    let empty = "".to_string();
    let editor = "vi".to_string();
    assert_eq!(
        resolve_editor(&cfg, Some(&empty), Some(&editor)),
        EditorChoice::Program("vi".to_string())
    );
}

#[test]
fn test_repo_name_from_url() {
    assert_eq!(repo_name("https://github.com/libgit2/libgit2"), "libgit2");
    assert_eq!(repo_name("https://github.com/catppuccin/catppuccin"), "catppuccin");
    assert_eq!(repo_name("local-repo"), "local-repo");
    assert_eq!(repo_name("https://github.com/x/spaced "), "spaced");
    assert_eq!(repo_name("trailing/slash/"), "");
}

#[test]
fn test_sample_repo_files_layout() {
    let files = sample_repo_files();
    let paths: Vec<&str> = files.iter().map(|f| f.path.as_str()).collect();
    assert_eq!(paths, vec![".gitignore", "config/config", "quickmark", "source", "list/list1"]);
    assert_eq!(files[0].lines[0], "/*");
    assert_eq!(files[0].lines[1], "!.gitignore");
    assert_eq!(files[2].lines, vec!["quickmark content".to_string()]);
    assert_eq!(files[3].lines, vec!["source content".to_string()]);
    assert!(files[4].lines.is_empty());
    assert!(files[1].lines.contains(&"config_path = /path/to/override/config".to_string()));
    assert!(files[1].lines.contains(&"plug_path = /path/to/override/plug".to_string()));
}

#[test]
fn test_trim_removes_surrounding_whitespace() {
    assert_eq!(trim("  a b \t"), "a b");
    assert_eq!(trim(""), "");
    assert_eq!(trim(" \t\r\n"), "");
    assert_eq!(trim("x"), "x");
}

#[test]
fn test_starts_with_and_contains() {
    assert!(starts_with("[list] x", "[list]"));
    assert!(!starts_with("[list-r] x", "[list]"));
    assert!(contains_str("Banana", "nan"));
    assert!(!contains_str("Banana", "xyz"));
    assert!(contains_str("anything", ""));
}
