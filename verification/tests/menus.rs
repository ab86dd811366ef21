use msailor::menu::{
    generate_command_menu_content, generate_help_menu_content, generate_menu_content, RepoContent,
};

fn items(names: &[&str]) -> Vec<String> {
    names.iter().map(|s| s.to_string()).collect()
}

#[test]
fn test_help_menu_content() {
    let help = generate_help_menu_content();
    assert_eq!(help.len(), 10);
    assert_eq!(help[0], "q   => Exit");
    assert_eq!(help[1], "e   => Edit");
    assert_eq!(help[9], "Esc => Go back to normal mode from any other mode");
}

#[test]
fn test_command_menu_content() {
    let commands = generate_command_menu_content();
    assert_eq!(
        commands,
        items(&["create-sample-repo", "config-edit", "history-edit", "list-add", "indexwp"])
    );
}

#[test]
fn test_generate_menu_content_tags() {
    let repos = vec![RepoContent {
        name: "repo1".to_string(),
        lists: items(&["list1"]),
        quickmarks: items(&["quickmark1"]),
    }];
    let result = generate_menu_content(
        &repos,
        &items(&["list1"]),
        &items(&["quickmark2"]),
        &items(&["file1"]),
    );

    assert!(result.contains(&"[list-repo1] list1".to_string()));
    assert!(result.contains(&"[quickmark-repo1] quickmark1".to_string()));
    assert!(result.contains(&"[list] list1".to_string()));
    assert!(result.contains(&"[quickmark] quickmark2".to_string()));
    assert!(result.contains(&"[file] file1".to_string()));
    assert!(result.contains(&"[config]".to_string()));
    assert!(result.contains(&"[history]".to_string()));
}

#[test]
fn test_generate_menu_content_order() {
    let repos = vec![
        RepoContent {
            name: "r1".to_string(),
            lists: items(&["a", "b"]),
            quickmarks: items(&["q"]),
        },
        RepoContent { name: "r2".to_string(), lists: items(&["c"]), quickmarks: items(&[]) },
    ];
    let result = generate_menu_content(&repos, &items(&["l"]), &items(&["m"]), &items(&["f"]));
    assert_eq!(
        result,
        items(&[
            "[list-r1] a",
            "[list-r1] b",
            "[quickmark-r1] q",
            "[list-r2] c",
            "[list] l",
            "[quickmark] m",
            "[file] f",
            "[config]",
            "[history]",
        ])
    );
}

#[test]
fn test_generate_menu_content_empty_inputs() {
    let result = generate_menu_content(&Vec::new(), &items(&[]), &items(&[]), &items(&[]));
    assert_eq!(result, items(&["[config]", "[history]"]));
}
