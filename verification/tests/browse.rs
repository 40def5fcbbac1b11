use naide_desktop::browse::{
    feature_entry_hidden, is_feature_file, parse_date_from_filename, parse_filename,
    plain_file_name, project_item_excluded, shown_name, stored_session, ProjectFileNode,
    ViewOptions,
};
use naide_desktop::text::{
    chars_of, contains, ends_with, join, list_contains, same_text, starts_with, str_contains,
};

#[test]
fn dated_feature_file_is_taken_apart() {
    assert_eq!(
        parse_filename("2026-02-01-add-copilot-integration.md"),
        ("add-copilot-integration".to_string(), Some("2026-02-01".to_string()))
    );
    assert_eq!(
        parse_date_from_filename("2026-02-01-add-copilot-integration.md"),
        Some("2026-02-01".to_string())
    );
}

#[test]
fn undated_feature_file_keeps_its_name() {
    assert_eq!(parse_filename("readme.md"), ("readme".to_string(), None));
    assert_eq!(parse_filename("notes"), ("notes".to_string(), None));
    assert_eq!(parse_filename("2026-02-01.md"), ("2026-02-01".to_string(), None));
    assert_eq!(parse_filename("2026_02_01-name.md"), ("2026_02_01-name".to_string(), None));
    assert_eq!(parse_filename(".md"), ("".to_string(), None));
    assert_eq!(parse_filename(""), ("".to_string(), None));
    assert_eq!(parse_date_from_filename("readme.md"), None);
    assert_eq!(parse_date_from_filename("2026-02-01.md"), None);
}

#[test]
fn date_pattern_is_only_the_dashes() {
    assert_eq!(parse_filename("2026-02-01-.md"), ("".to_string(), Some("2026-02-01".to_string())));
    assert_eq!(parse_filename("abcd-ef-gh-x"), ("x".to_string(), Some("abcd-ef-gh".to_string())));
    assert_eq!(
        parse_filename("2026-02-01-a.md.md"),
        ("a.md".to_string(), Some("2026-02-01".to_string()))
    );
}

#[test]
fn raw_view_keeps_the_date_in_the_name() {
    let raw = ViewOptions { show_bugs: false, show_removed: false, show_raw: true };
    let plain = ViewOptions { show_bugs: false, show_removed: false, show_raw: false };
    assert_eq!(
        shown_name("2026-02-01-add.md", raw),
        ("2026-02-01-add".to_string(), Some("2026-02-01".to_string()))
    );
    assert_eq!(shown_name("2026-02-01-add.md", plain), ("add".to_string(), Some("2026-02-01".to_string())));
    assert_eq!(shown_name("plain.md", raw), ("plain".to_string(), None));
}

#[test]
fn hidden_and_filtered_feature_entries() {
    let none = ViewOptions { show_bugs: false, show_removed: false, show_raw: false };
    let all = ViewOptions { show_bugs: true, show_removed: true, show_raw: false };
    let bugs_only = ViewOptions { show_bugs: true, show_removed: false, show_raw: false };
    let path = |text: &str| text.split('/').map(|s| s.to_string()).collect::<Vec<String>>();
    assert!(feature_entry_hidden(".draft.md", &path(".draft.md"), all));
    assert!(feature_entry_hidden("bugs", &path("bugs"), none));
    assert!(feature_entry_hidden("a.md", &path("bugs/a.md"), none));
    assert!(feature_entry_hidden("a.md", &path("removed-features/x/a.md"), none));
    assert!(feature_entry_hidden("removed-features", &path("removed-features"), none));
    assert!(!feature_entry_hidden("a.md", &path("bugs/a.md"), all));
    assert!(!feature_entry_hidden("a.md", &path("removed-features/a.md"), all));
    assert!(!feature_entry_hidden("a.md", &path("bugs/a.md"), bugs_only));
    assert!(feature_entry_hidden("a.md", &path("removed-features/a.md"), bugs_only));
    assert!(!feature_entry_hidden("bugsy.md", &path("bugsy.md"), none));
    assert!(!feature_entry_hidden("a.md", &path("features/bugs/a.md"), none));
    assert!(!feature_entry_hidden("a.md", &path("a.md"), none));
    assert!(!feature_entry_hidden("a.md", &Vec::new(), none));
    assert!(is_feature_file("a.md"));
    assert!(is_feature_file(".md"));
    assert!(!is_feature_file("a.markdown"));
    assert!(!is_feature_file("a.MD"));
}

#[test]
fn project_tree_leaves_out_five_names() {
    for name in ["node_modules", ".git", "bin", "obj", "dist"] {
        assert!(project_item_excluded(name), "{}", name);
    }
    for name in ["src", "build", "Bin", ".gitignore", ""] {
        assert!(!project_item_excluded(name), "{}", name);
    }
    let node = ProjectFileNode {
        name: "main.rs".to_string(),
        path: "src/main.rs".to_string(),
        is_folder: false,
        file_extension: Some("rs".to_string()),
    };
    assert_eq!(node.name, "main.rs");
    assert!(!node.is_folder);
}

#[test]
fn stored_sessions_and_plain_names() {
    assert!(stored_session("2026-01-31-chat.json"));
    assert!(!stored_session("default-chat.json"));
    assert!(!stored_session("notes.txt"));
    assert!(plain_file_name("chat.json"));
    assert!(plain_file_name("a.b.json"));
    assert!(!plain_file_name("../chat.json"));
    assert!(!plain_file_name("a/b.json"));
    assert!(!plain_file_name("a\\b.json"));
    assert!(!plain_file_name("a..b"));
}

#[test]
fn substring_search_finds_every_position() {
    assert!(str_contains("abc", ""));
    assert!(str_contains("", ""));
    assert!(!str_contains("", "a"));
    assert!(str_contains("abc", "a"));
    assert!(str_contains("abc", "bc"));
    assert!(str_contains("abc", "abc"));
    assert!(!str_contains("abc", "abcd"));
    assert!(!str_contains("abc", "ac"));
    assert!(str_contains("aab", "ab"));
    assert!(str_contains("héllo wörld", "wör"));
    assert!(contains(&chars_of("xyz"), &chars_of("z")));
}

#[test]
fn prefix_suffix_and_equality() {
    assert!(starts_with(&chars_of("abc"), &chars_of("ab")));
    assert!(starts_with(&chars_of("abc"), &chars_of("")));
    assert!(!starts_with(&chars_of("abc"), &chars_of("bc")));
    assert!(!starts_with(&chars_of("a"), &chars_of("ab")));
    assert!(ends_with(&chars_of("abc"), &chars_of("bc")));
    assert!(ends_with(&chars_of("abc"), &chars_of("")));
    assert!(!ends_with(&chars_of("abc"), &chars_of("ab")));
    assert!(!ends_with(&chars_of("c"), &chars_of("bc")));
    assert!(same_text("abc", "abc"));
    assert!(!same_text("abc", "abd"));
    assert!(!same_text("abc", "ab"));
    assert!(same_text("", ""));
    assert_eq!(chars_of("héy"), vec!['h', 'é', 'y']);
}

#[test]
fn texts_are_joined_with_the_separator_between() {
    let parts = |list: &[&str]| list.iter().map(|s| s.to_string()).collect::<Vec<String>>();
    assert_eq!(join(&parts(&[]), "/"), "");
    assert_eq!(join(&parts(&["a"]), "/"), "a");
    assert_eq!(join(&parts(&["a", "b", "c"]), "/"), "a/b/c");
    assert_eq!(join(&parts(&["a", "", "c"]), "::"), "a::::c");
    assert_eq!(join(&parts(&["a", "b"]), ""), "ab");
    assert!(list_contains(&parts(&["a", "b"]), "b"));
    assert!(!list_contains(&parts(&["a", "b"]), "ab"));
    assert!(!list_contains(&parts(&[]), ""));
}
